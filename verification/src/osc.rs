//! The escape sequences by which a shell marks prompts, commands, exit codes and directories in
//! its output.

use vstd::prelude::*;

use crate::number;
use crate::pattern::Pattern;
use crate::text;

verus! {

/// Ends the prompt: what follows is the command line.
pub const COMMAND_MARK: &'static str = "\x1b]133;B\x07";

/// Begins the mark that ends a command.
pub const END_MARK: &'static str = "\x1b]133;D";

/// Erases to the end of the line: the shell writes it behind a command.
pub const ERASE_TO_END: &'static str = "\x1b[K";

/// Stands before the exit code of a command.
pub const EXIT_CODE_INTRO: &'static str = "\x1b]133;D;";

/// Stands before the current directory.
pub const CURRENT_DIR_INTRO: &'static str = "\x1b]1337;CurrentDir=";

/// Stands before the name of the remote host.
pub const REMOTE_HOST_INTRO: &'static str = "\x1b]1337;RemoteHost=";

/// Begins the mark that stands before the output of a command.
pub const OUTPUT_MARK: &'static str = "\x1b]133;C";

/// Ends an operating system command.
pub const BELL: &'static str = "\x07";

/// The exit code in the mark that ends a command.
pub const EXIT_CODE_PATTERN: &'static str = r"\x1b]133;D;(\d+)\x07";

/// The directory in the mark that announces it.
pub const CURRENT_DIR_PATTERN: &'static str = r"\x1b]1337;CurrentDir=([^\x07]*)\x07";

/// A mark at the start of the text that is no output of a command.
pub const SHELL_MARK_PATTERN: &'static str = r"^\x1b\](133;[CD]|1337;RemoteHost=|1337;CurrentDir=)";

/// The exit code where none can be read.
pub const NO_EXIT_CODE: i64 = -1;

/// Whether `c` is a digit from `0` to `9` or, with `any_script`, may be a decimal digit of some
/// other script: those are all outside of ASCII.
pub open spec fn is_code_digit(c: char, any_script: bool) -> bool {
    number::is_digit(c) || any_script && c as u32 >= 0x80
}

/// Whether an exit code mark stands in `s` at index `i`, with `n` digits between its introduction
/// and the bell that ends it.
pub open spec fn exit_mark_at(s: Seq<char>, i: int, n: int, any_script: bool) -> bool {
    let start = i + EXIT_CODE_INTRO@.len();
    &&& text::occurs_at(s, EXIT_CODE_INTRO@, i)
    &&& 1 <= n < s.len() - start
    &&& forall|k: int| start <= k < start + n ==> is_code_digit(#[trigger] s[k], any_script)
    &&& s[start + n] == '\x07'
}

/// Whether `code`, in the digits `0` to `9`, is what the first exit code mark in `s` holds.
pub open spec fn first_exit_code(s: Seq<char>, code: Seq<char>) -> bool {
    exists|i: int, n: int|
        {
            &&& #[trigger] exit_mark_at(s, i, n, false)
            &&& code == mark_digits(s, i, n)
            &&& forall|j: int, m: int| j < i ==> !#[trigger] exit_mark_at(s, j, m, true)
        }
}

/// Whether `s` holds no exit code mark, in the digits of any script.
pub open spec fn no_exit_code(s: Seq<char>) -> bool {
    forall|i: int, n: int| !#[trigger] exit_mark_at(s, i, n, true)
}

/// The characters between the introduction and the bell of the exit code mark at index `i`.
pub open spec fn mark_digits(s: Seq<char>, i: int, n: int) -> Seq<char> {
    s.subrange(i + EXIT_CODE_INTRO@.len(), i + EXIT_CODE_INTRO@.len() + n)
}

/// Whether `code` is what an exit code mark in `s` holds, in the digits of some script, and no mark
/// in the digits `0` to `9` stands before it.
pub open spec fn early_exit_code(s: Seq<char>, code: Seq<char>) -> bool {
    exists|i: int, n: int|
        {
            &&& #[trigger] exit_mark_at(s, i, n, true)
            &&& code == mark_digits(s, i, n)
            &&& forall|j: int, m: int| j < i ==> !#[trigger] exit_mark_at(s, j, m, false)
        }
}

/// What a search in `s` with the pattern for exit codes finds, as far as the digits `0` to `9`
/// decide it.
pub open spec fn exit_groups(s: Seq<char>, groups: Option<Seq<Option<Seq<char>>>>) -> bool {
    &&& no_exit_code(s) ==> groups is None
    &&& groups is Some ==> groups->0.len() == 2 && groups->0[1] is Some && early_exit_code(
        s,
        groups->0[1]->0,
    )
    &&& forall|code: Seq<char>| #[trigger]
        first_exit_code(s, code) ==> groups is Some && groups->0.len() == 2 && groups->0[1] == Some(
            code,
        )
}

/// The directory that the first complete directory mark in `s` announces.
pub open spec fn announced_dir(s: Seq<char>) -> Option<Seq<char>> {
    match text::split_first(s, CURRENT_DIR_INTRO@) {
        Some((_, rest)) => match text::split_first(rest, BELL@) {
            Some((dir, _)) => Some(dir),
            None => None,
        },
        None => None,
    }
}

/// What a search in `s` with the pattern for directories finds.
pub open spec fn current_dir_groups(s: Seq<char>, groups: Option<Seq<Option<Seq<char>>>>) -> bool {
    match announced_dir(s) {
        Some(dir) => groups is Some && groups->0.len() == 2 && groups->0[1] == Some(dir),
        None => groups is None,
    }
}

/// Whether `s` starts with a mark that is no output of a command.
pub open spec fn starts_with_shell_mark(s: Seq<char>) -> bool {
    ||| text::occurs_at(s, OUTPUT_MARK@, 0)
    ||| text::occurs_at(s, END_MARK@, 0)
    ||| text::occurs_at(s, REMOTE_HOST_INTRO@, 0)
    ||| text::occurs_at(s, CURRENT_DIR_INTRO@, 0)
}

/// What capture group `i` of a search holds, where there was a match and the group took part.
pub open spec fn group(groups: Option<Seq<Option<Seq<char>>>>, i: int) -> Option<Seq<char>> {
    match groups {
        Some(groups) if 0 <= i < groups.len() => groups[i],
        _ => None,
    }
}

/// What capture group `i` of a search holds, where there was a match and the group took part.
pub(crate) fn take_group(groups: Option<Vec<Option<String>>>, i: usize) -> (r: Option<String>)
    ensures
        r.deep_view() == group(groups.deep_view(), i as int),
{
    match groups {
        Some(groups) => if i < groups.len() {
            groups[i].clone()
        } else {
            None
        },
        None => None,
    }
}

/// The exit code that the text of a capture group denotes.
pub open spec fn exit_code(text: Option<Seq<char>>) -> i64 {
    match text {
        Some(text) => match number::parsed_i64(text) {
            Some(code) => code,
            None => NO_EXIT_CODE,
        },
        None => NO_EXIT_CODE,
    }
}

/// The exit code that the text of a capture group denotes: -1 where there is none, or where it
/// denotes no integer that fits.
pub fn exit_code_of_group(text: &Option<String>) -> (r: i64)
    ensures
        r == exit_code(text.deep_view()),
{
    match text {
        Some(text) => match number::parse_i64(text.as_str()) {
            Some(code) => code,
            None => NO_EXIT_CODE,
        },
        None => NO_EXIT_CODE,
    }
}

/// The exit code in the first exit code mark of `data`.
pub open spec fn marked_exit_code(data: Seq<char>) -> i64 {
    exit_code(group(crate::pattern::regex_captures(EXIT_CODE_PATTERN@, data), 1))
}

/// Whether `code` is the exit code that `data` holds, as far as the digits `0` to `9` decide it:
/// it is the number in the first mark in these digits, or -1.
pub open spec fn is_exit_code_of(data: Seq<char>, code: i64) -> bool {
    &&& code >= NO_EXIT_CODE
    &&& no_exit_code(data) ==> code == NO_EXIT_CODE
    &&& code != NO_EXIT_CODE ==> exists|i: int, n: int|
        {
            &&& #[trigger] exit_mark_at(data, i, n, false)
            &&& code == number::digits_value(mark_digits(data, i, n))
            &&& forall|j: int, m: int| j < i ==> !#[trigger] exit_mark_at(data, j, m, false)
        }
    &&& forall|digits: Seq<char>| #[trigger]
        first_exit_code(data, digits) ==> code == exit_code(Some(digits))
}

/// The exit code in the first exit code mark of `data`, or -1 where there is none or it does not
/// fit.
pub fn extract_exit_code(data: &str) -> (r: i64)
    ensures
        r == marked_exit_code(data@),
        is_exit_code_of(data@, r),
{
    let pattern = Pattern::compile(EXIT_CODE_PATTERN).unwrap();
    let text = take_group(pattern.captures(data), 1);
    proof {
        if let Some(code) = text.deep_view() {
            early_exit_code_value(data@, code);
        }
    }
    exit_code_of_group(&text)
}

/// The number that an early exit code denotes is not negative, and where there is one it stands in
/// the first mark in the digits `0` to `9`.
proof fn early_exit_code_value(s: Seq<char>, code: Seq<char>)
    requires
        early_exit_code(s, code),
    ensures
        number::parsed_i64(code) matches Some(value) ==> value >= 0 && exists|i: int, n: int|
            {
                &&& #[trigger] exit_mark_at(s, i, n, false)
                &&& value == number::digits_value(mark_digits(s, i, n))
                &&& forall|j: int, m: int| j < i ==> !#[trigger] exit_mark_at(s, j, m, false)
            },
{
    let (i, n) = choose|i: int, n: int|
        {
            &&& #[trigger] exit_mark_at(s, i, n, true)
            &&& code == mark_digits(s, i, n)
            &&& forall|j: int, m: int| j < i ==> !#[trigger] exit_mark_at(s, j, m, false)
        };
    let start = i + EXIT_CODE_INTRO@.len();
    assert(code[0] == s[start]);
    assert(is_code_digit(s[start], true));
    if number::parsed_i64(code) is Some {
        assert forall|k: int| start <= k < start + n implies is_code_digit(
            #[trigger] s[k],
            false,
        ) by {
            assert(number::is_digit(code[k - start]));
        }
        assert(exit_mark_at(s, i, n, false));
    }
}

/// The directory that `data` announces, where it does.
pub fn extract_current_dir(data: &str) -> (r: Option<String>)
    ensures
        r.deep_view() == announced_dir(data@),
{
    let pattern = Pattern::compile(CURRENT_DIR_PATTERN).unwrap();
    take_group(pattern.captures(data), 1)
}

/// Whether `data` is output of a command: it does not start with a mark of the shell, and is not
/// blank.
pub open spec fn is_output(data: Seq<char>) -> bool {
    !starts_with_shell_mark(data) && text::trimmed(data).len() > 0
}

/// Whether `data` is output of a command: it does not start with a mark of the shell, and is not
/// blank.
pub fn is_real_output(data: &str) -> (r: bool)
    ensures
        r == is_output(data@),
{
    let pattern = Pattern::compile(SHELL_MARK_PATTERN).unwrap();
    !pattern.is_match(data) && !data.trim().is_empty()
}

/// The command line that follows the first command mark in `line`, up to the sequence that erases
/// the rest of the terminal's line, without whitespace around it. It is empty where there is no
/// command mark.
pub open spec fn marked_command(line: Seq<char>) -> Seq<char> {
    match text::split_first(line, COMMAND_MARK@) {
        Some((_, after)) => match text::split_first(after, ERASE_TO_END@) {
            Some((command, _)) => text::trimmed(command),
            None => text::trimmed(after),
        },
        None => Seq::empty(),
    }
}

/// The command line that follows the first command mark in `line`.
pub fn extract_command_from_osc133b(line: &str) -> (r: String)
    ensures
        r@ == marked_command(line@),
{
    match text::split_once(line, COMMAND_MARK) {
        Some((before, after)) => {
            proof {
                text::split_first_at(line@, COMMAND_MARK@, before@.len() as int);
            }
            let command = match text::split_once(after, ERASE_TO_END) {
                Some((command, _)) => {
                    proof {
                        text::split_first_at(after@, ERASE_TO_END@, command@.len() as int);
                    }
                    command
                },
                None => after,
            };
            command.trim().to_string()
        },
        None => String::new(),
    }
}

/// A command that a shell marks is read back: what stands between the command mark and the erase
/// sequence, or the end of the line, comes out without the whitespace around it.
pub proof fn marked_command_reads_back(
    before: Seq<char>,
    command: Seq<char>,
    after: Seq<char>,
)
    requires
        !text::contains_text(before, COMMAND_MARK@),
        !text::contains_text(command, ERASE_TO_END@),
    ensures
        marked_command(before + COMMAND_MARK@ + command) == text::trimmed(command),
        marked_command(before + COMMAND_MARK@ + (command + ERASE_TO_END@ + after))
            == text::trimmed(command),
{
    reveal_strlit("\x1b]133;B\x07");
    reveal_strlit("\x1b[K");
    text::split_first_gives_back(before, COMMAND_MARK@, command);
    text::split_first_gives_back(
        before,
        COMMAND_MARK@,
        command + ERASE_TO_END@ + after,
    );
    text::split_first_gives_back(command, ERASE_TO_END@, after);
}

/// What the terminal writes behind the erase sequence makes no difference to the command, nor does
/// the sequence itself.
pub proof fn erase_sequence_ends_command(line: Seq<char>, after: Seq<char>)
    requires
        text::contains_text(line, COMMAND_MARK@),
    ensures
        marked_command(line + ERASE_TO_END@ + after) == marked_command(line),
{
    reveal_strlit("\x1b[K");
    let more = ERASE_TO_END@ + after;
    assert(line + ERASE_TO_END@ + after =~= line + more);
    text::split_first_before_more(line, COMMAND_MARK@, more);
    let rest = (text::split_first(line, COMMAND_MARK@)->0).1;
    if text::contains_text(rest, ERASE_TO_END@) {
        text::split_first_before_more(rest, ERASE_TO_END@, more);
    } else {
        text::split_first_gives_back(rest, ERASE_TO_END@, after);
        assert(rest + ERASE_TO_END@ + after =~= rest + more);
    }
}

/// A command never holds the erase sequence, nor whitespace at either end.
pub proof fn marked_command_is_clean(line: Seq<char>)
    ensures
        !text::contains_text(marked_command(line), ERASE_TO_END@),
        text::trimmed(marked_command(line)) == marked_command(line),
{
    reveal_strlit("\x1b[K");
    match text::split_first(line, COMMAND_MARK@) {
        Some((_, after)) => {
            text::trimmed_twice(after);
            if text::contains_text(after, ERASE_TO_END@) {
                text::split_first_before(after, ERASE_TO_END@);
                let command = (text::split_first(after, ERASE_TO_END@)->0).0;
                text::trimmed_twice(command);
                text::trimmed_holds_nothing_new(command, ERASE_TO_END@);
            } else {
                text::trimmed_holds_nothing_new(after, ERASE_TO_END@);
            }
        },
        None => {},
    }
}

/// An exit code that a shell marks is read back: where no exit code stands before it, the digits in
/// its mark are what the code is parsed from.
pub proof fn exit_code_reads_back(before: Seq<char>, digits: Seq<char>, after: Seq<char>)
    requires
        no_exit_code(before),
        digits.len() > 0,
        number::all_digits(digits),
    ensures
        first_exit_code(before + EXIT_CODE_INTRO@ + (digits + BELL@ + after), digits),
{
    reveal_strlit("\x1b]133;D;");
    reveal_strlit("\x07");
    let s = before + EXIT_CODE_INTRO@ + (digits + BELL@ + after);
    let i = before.len() as int;
    let start = i + EXIT_CODE_INTRO@.len();
    let n = digits.len() as int;
    assert(s.subrange(i, start) =~= EXIT_CODE_INTRO@);
    assert forall|k: int| start <= k < start + n implies is_code_digit(
        #[trigger] s[k],
        false,
    ) by {
        assert(s[k] == digits[k - start]);
    }
    assert(s[start + n] == BELL@[0]);
    assert(exit_mark_at(s, i, n, false));
    assert(s.subrange(start, start + n) =~= digits);
    assert forall|j: int, m: int| j < i implies !#[trigger] exit_mark_at(s, j, m, true) by {
        if exit_mark_at(s, j, m, true) {
            earlier_exit_mark(before, digits + BELL@ + after, j, m);
        }
    }
}

/// A mark that begins before the introduction of another also ends before it.
proof fn earlier_exit_mark(before: Seq<char>, after: Seq<char>, i: int, n: int)
    requires
        i < before.len(),
        exit_mark_at(before + EXIT_CODE_INTRO@ + after, i, n, true),
    ensures
        exit_mark_at(before, i, n, true),
{
    reveal_strlit("\x1b]133;D;");
    let s = before + EXIT_CODE_INTRO@ + after;
    let start = i + EXIT_CODE_INTRO@.len();
    let escape = before.len() as int;
    assert(s[escape] == EXIT_CODE_INTRO@[0]);
    if start > escape {
        assert(s.subrange(i, start)[escape - i] == s[escape]);
    }
    assert(start + n < escape) by {
        if start <= escape < start + n {
            assert(is_code_digit(s[escape], true));
        }
    }
    assert(before.subrange(i, start) =~= s.subrange(i, start));
    assert forall|k: int| start <= k < start + n implies is_code_digit(
        #[trigger] before[k],
        true,
    ) by {
        assert(s[k] == before[k]);
    }
}

/// A marked exit code comes out as the number it is, where it fits, and as -1 where it does not.
pub proof fn exit_code_of_decimal(n: nat)
    ensures
        exit_code(Some(number::decimal(n))) == if n <= i64::MAX {
            n as i64
        } else {
            NO_EXIT_CODE
        },
{
    number::decimal_reads_back(n);
    assert(number::is_digit(number::decimal(n)[0]));
}

/// A text without the introduction of an exit code mark holds no exit code.
pub proof fn no_exit_code_without_mark(s: Seq<char>)
    requires
        !text::contains_text(s, EXIT_CODE_INTRO@),
    ensures
        no_exit_code(s),
{
    assert forall|i: int, n: int| !#[trigger] exit_mark_at(s, i, n, true) by {
        assert(!text::occurs_at(s, EXIT_CODE_INTRO@, i));
    }
}

/// A directory that a shell announces is read back as it stands.
pub proof fn announced_dir_reads_back(before: Seq<char>, dir: Seq<char>, after: Seq<char>)
    requires
        !text::contains_text(before, CURRENT_DIR_INTRO@),
        !text::contains_text(dir, BELL@),
    ensures
        announced_dir(before + CURRENT_DIR_INTRO@ + (dir + BELL@ + after)) == Some(dir),
{
    reveal_strlit("\x1b]1337;CurrentDir=");
    reveal_strlit("\x07");
    text::split_first_gives_back(before, CURRENT_DIR_INTRO@, dir + BELL@ + after);
    text::split_first_gives_back(dir, BELL@, after);
}

/// Without a command mark there is no command.
pub proof fn no_command_without_mark(line: Seq<char>)
    requires
        !text::contains_text(line, COMMAND_MARK@),
    ensures
        marked_command(line).len() == 0,
{
}

/// Digits denote the number that they are in decimal notation, zeros in front or not, where it
/// fits, and -1 where it does not. So does what no match and no group gives.
pub proof fn exit_code_of_digits(digits: Seq<char>)
    requires
        digits.len() > 0,
        number::all_digits(digits),
    ensures
        number::digits_value(digits) <= i64::MAX ==> exit_code(Some(digits))
            == number::digits_value(digits),
        number::digits_value(digits) > i64::MAX ==> exit_code(Some(digits)) == -1,
        exit_code(None) == -1,
{
    assert(number::is_digit(digits[0]));
}

/// The exit code of data is the number in its first mark, whatever stands around that mark, or -1
/// where the number does not fit or there is no mark.
pub proof fn exit_code_is_that_of_the_first_mark(
    before: Seq<char>,
    digits: Seq<char>,
    after: Seq<char>,
    code: i64,
)
    requires
        no_exit_code(before),
        digits.len() > 0,
        number::all_digits(digits),
        is_exit_code_of(before + EXIT_CODE_INTRO@ + (digits + BELL@ + after), code),
    ensures
        number::digits_value(digits) <= i64::MAX ==> code == number::digits_value(digits),
        number::digits_value(digits) > i64::MAX ==> code == -1,
{
    exit_code_reads_back(before, digits, after);
    exit_code_of_digits(digits);
}

/// Data without a complete mark has the exit code -1.
pub proof fn no_mark_no_exit_code(data: Seq<char>, code: i64)
    requires
        is_exit_code_of(data, code),
    ensures
        code >= -1,
        (forall|i: int| !#[trigger] text::occurs_at(data, EXIT_CODE_INTRO@, i)) ==> code == -1,
        !text::contains_text(data, BELL@) ==> code == -1,
{
    reveal_strlit("\x07");
    if forall|i: int| !#[trigger] text::occurs_at(data, EXIT_CODE_INTRO@, i) {
        no_exit_code_without_mark(data);
    }
    if !text::contains_text(data, BELL@) {
        assert forall|i: int, n: int| !#[trigger] exit_mark_at(data, i, n, true) by {
            if exit_mark_at(data, i, n, true) {
                let k = i + EXIT_CODE_INTRO@.len() + n;
                assert(data.subrange(k, k + 1) =~= BELL@);
                assert(text::occurs_at(data, BELL@, k));
            }
        }
    }
}

/// Without a directory mark no directory is announced.
pub proof fn no_directory_without_mark(data: Seq<char>)
    requires
        !text::contains_text(data, CURRENT_DIR_INTRO@) || !text::contains_text(data, BELL@),
    ensures
        announced_dir(data) is None,
{
    if text::contains_text(data, CURRENT_DIR_INTRO@) {
        text::first_occurrence_exists(data, CURRENT_DIR_INTRO@);
        let i = choose|i: int| text::first_occurrence(data, CURRENT_DIR_INTRO@, i);
        text::split_first_at(data, CURRENT_DIR_INTRO@, i);
        let n = i + CURRENT_DIR_INTRO@.len();
        let rest = data.skip(n);
        if text::contains_text(rest, BELL@) {
            let j = choose|j: int| text::occurs_at(rest, BELL@, j);
            assert(data.subrange(n + j, n + j + BELL@.len()) =~= rest.subrange(
                j,
                j + BELL@.len(),
            ));
            assert(text::occurs_at(data, BELL@, n + j));
        }
    }
}

/// Output of a command is all that holds a character other than whitespace and begins with none of
/// the marks that stand around output.
pub proof fn output_is_neither_blank_nor_marked(data: Seq<char>)
    ensures
        is_output(data) <==> {
            &&& exists|k: int| 0 <= k < data.len() && !text::is_whitespace(#[trigger] data[k])
            &&& !text::occurs_at(data, OUTPUT_MARK@, 0)
            &&& !text::occurs_at(data, END_MARK@, 0)
            &&& !text::occurs_at(data, REMOTE_HOST_INTRO@, 0)
            &&& !text::occurs_at(data, CURRENT_DIR_INTRO@, 0)
        },
{
    text::trimmed_is_empty_where_blank(data);
}

/// The exit code that a text denotes is the integer that it is, where it is one that fits, and -1
/// for every other text and where there is none.
pub proof fn exit_code_of_text(text: Seq<char>)
    ensures
        number::parsed_integer(text) matches Some(n) ==> {
            &&& i64::MIN <= n <= i64::MAX ==> exit_code(Some(text)) == n
            &&& !(i64::MIN <= n <= i64::MAX) ==> exit_code(Some(text)) == -1
        },
        number::parsed_integer(text) is None ==> exit_code(Some(text)) == -1,
        exit_code(None) == -1,
{
}

/// The exit code of data is the one that the first group of its mark denotes, as the search for the
/// mark finds it, and -1 where nothing is found.
pub proof fn exit_code_of_what_is_found(data: Seq<char>)
    ensures
        ({
            let found = crate::pattern::regex_captures(EXIT_CODE_PATTERN@, data);
            &&& found is None ==> marked_exit_code(data) == -1
            &&& found is Some && found->0.len() > 1 ==> marked_exit_code(data) == exit_code(
                found->0[1],
            )
            &&& found is Some && found->0.len() <= 1 ==> marked_exit_code(data) == -1
        }),
{
}

} // verus!
