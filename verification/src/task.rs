use std::collections::HashMap;
use vstd::arithmetic::power::pow;
use vstd::prelude::*;

verus! {

// ---------------------------------------------------------------------------------------------
// Textual form of identifiers
// ---------------------------------------------------------------------------------------------

/// The lowercase hexadecimal digit for a value in `0..16`.
pub open spec fn hex_digit(n: int) -> char {
    if n < 10 {
        (48 + n) as char
    } else {
        (87 + n) as char
    }
}

/// The `k`-th hexadecimal digit of a 128-bit value, counting from the most significant one.
pub open spec fn nibble(value: u128, k: int) -> int {
    (value as int / pow(16, (31 - k) as nat)) % 16
}

/// Whether position `i` of the hyphenated form holds a hyphen.
pub open spec fn is_hyphen_position(i: int) -> bool {
    i == 8 || i == 13 || i == 18 || i == 23
}

/// The number of hexadecimal digits that precede position `i` of the hyphenated form.
pub open spec fn digits_before(i: int) -> int {
    if i <= 8 {
        i
    } else if i <= 13 {
        i - 1
    } else if i <= 18 {
        i - 2
    } else if i <= 23 {
        i - 3
    } else {
        i - 4
    }
}

/// The hyphenated form of a 128-bit identifier: 32 lowercase hexadecimal digits, most
/// significant first, in groups of 8, 4, 4, 4 and 12 separated by `-`.
pub open spec fn uuid_hyphenated(value: u128) -> Seq<char> {
    Seq::new(
        36,
        |i: int|
            if is_hyphen_position(i) {
                '-'
            } else {
                hex_digit(nibble(value, digits_before(i)))
            },
    )
}

/// The value of a hexadecimal digit, either case; `None` for any other character.
pub open spec fn hex_value(c: char) -> Option<int> {
    if '0' <= c && c <= '9' {
        Some(c as int - 48)
    } else if 'a' <= c && c <= 'f' {
        Some(c as int - 87)
    } else if 'A' <= c && c <= 'F' {
        Some(c as int - 55)
    } else {
        None
    }
}

/// Whether every character of a text is a hexadecimal digit.
pub open spec fn all_hex(text: Seq<char>) -> bool {
    forall|i: int| 0 <= i < text.len() ==> #[trigger] hex_value(text[i]) is Some
}

/// The value of a text of hexadecimal digits, most significant first.
pub open spec fn digits_value(digits: Seq<char>) -> int
    decreases digits.len(),
{
    if digits.len() == 0 {
        0
    } else {
        digits_value(digits.drop_last()) * 16 + hex_value(digits.last()).unwrap_or(0)
    }
}

/// The 32 digits of a hyphenated text (36 characters with `-` at positions 8, 13, 18 and 23).
pub open spec fn hyphenated_digits(text: Seq<char>) -> Option<Seq<char>> {
    if text.len() == 36 && text[8] == '-' && text[13] == '-' && text[18] == '-' && text[23] == '-' {
        Some(text.take(8) + text.subrange(9, 13) + text.subrange(14, 18) + text.subrange(19, 23)
            + text.subrange(24, 36))
    } else {
        None
    }
}

/// A character with ASCII capitals made small.
pub open spec fn ascii_lower(c: char) -> char {
    if 'A' <= c && c <= 'Z' {
        (c as int + 32) as char
    } else {
        c
    }
}

/// The 32 digits of a text in one of the four shapes that `uuid::Uuid::parse_str` accepts:
/// 32 digits; the hyphenated form; the hyphenated form in braces; or the hyphenated form after
/// `urn:uuid:` in any case.
pub open spec fn uuid_digits(text: Seq<char>) -> Option<Seq<char>> {
    if text.len() == 32 {
        Some(text)
    } else if text.len() == 36 {
        hyphenated_digits(text)
    } else if text.len() == 38 && text[0] == '{' && text[37] == '}' {
        hyphenated_digits(text.subrange(1, 37))
    } else if text.len() == 45 && text.take(9).map_values(|c: char| ascii_lower(c)) == "urn:uuid:"@ {
        hyphenated_digits(text.skip(9))
    } else {
        None
    }
}

/// What `uuid::Uuid::parse_str` makes of a text: the value of its 32 digits when the text has
/// one of the accepted shapes and they are all hexadecimal digits, and nothing otherwise.
pub open spec fn uuid_text_value(text: Seq<char>) -> Option<int> {
    match uuid_digits(text) {
        Some(d) => if all_hex(d) {
            Some(digits_value(d))
        } else {
            None
        },
        None => None,
    }
}

/// The digits of the hyphenated form of a value, most significant first.
pub open spec fn value_digits(value: u128) -> Seq<char> {
    Seq::new(32, |k: int| hex_digit(nibble(value, k)))
}

/// The leading digits of a value read back give the value shifted right accordingly.
proof fn lemma_digits_prefix(value: u128, m: int)
    requires
        0 <= m <= 32,
    ensures
        digits_value(value_digits(value).take(m)) == value as int / pow(16, (32 - m) as nat),
    decreases m,
{
    let s = value_digits(value);
    if m == 0 {
        assert(s.take(0) =~= Seq::<char>::empty());
        reveal_with_fuel(pow, 33);
        assert(pow(16, 32) == 0x1_0000_0000_0000_0000_0000_0000_0000_0000);
    } else {
        lemma_digits_prefix(value, m - 1);
        assert(s.take(m).drop_last() =~= s.take(m - 1));
        let p = pow(16, (32 - m) as nat);
        vstd::arithmetic::power::lemma_pow_positive(16, (32 - m) as nat);
        reveal(pow);
        assert(pow(16, (33 - m) as nat) == 16 * p);
        let x = value as int / p;
        let n = x % 16;
        assert(0 <= n < 16);
        assert(s.take(m).last() == hex_digit(n));
        assert(hex_value(hex_digit(n)) == Some(n));
        vstd::arithmetic::div_mod::lemma_div_denominator(value as int, p, 16);
        assert(p * 16 == 16 * p) by (nonlinear_arith);
        vstd::arithmetic::div_mod::lemma_fundamental_div_mod(x, 16);
        assert(16 * (x / 16) == (x / 16) * 16) by (nonlinear_arith);
    }
}

/// The hyphenated form of every value parses back to that value.
pub proof fn lemma_hyphenated_parses_back(value: u128)
    ensures
        uuid_text_value(uuid_hyphenated(value)) == Some(value as int),
{
    let t = uuid_hyphenated(value);
    let s = value_digits(value);
    assert(t[8] == '-' && t[13] == '-' && t[18] == '-' && t[23] == '-');
    let d = t.take(8) + t.subrange(9, 13) + t.subrange(14, 18) + t.subrange(19, 23) + t.subrange(24, 36);
    assert(d =~= s);
    assert forall|i: int| 0 <= i < s.len() implies #[trigger] hex_value(s[i]) is Some by {
        let n = nibble(value, i);
        assert(0 <= n < 16);
        assert(hex_value(hex_digit(n)) == Some(n));
    }
    lemma_digits_prefix(value, 32);
    assert(s.take(32) =~= s);
    reveal(pow);
    assert(pow(16, 0) == 1);
}

/// The message of the error that `uuid::Uuid::parse_str` returns for a text it refuses.
pub uninterp spec fn uuid_parse_error(text: Seq<char>) -> Seq<char>;

/// The version field of an identifier (bits 76 to 79).
pub open spec fn uuid_version(value: u128) -> int {
    (value as int / 0x1000_0000_0000_0000_0000) % 16
}

/// The variant field of an identifier (bits 62 and 63).
pub open spec fn uuid_variant(value: u128) -> int {
    (value as int / 0x4000_0000_0000_0000) % 4
}

/// Calls `uuid::Uuid::new_v4` and returns the identifier as its big-endian 128-bit value.
/// Trusted: the result carries version 4 (random) and the RFC 4122 variant (binary `10`), as
/// uuid's documentation states and its mask sets. The other 122 bits are random and are left
/// unsaid.
#[verifier::external_body]
fn uuid_new_v4() -> (value: u128)
    ensures
        uuid_version(value) == 4,
        uuid_variant(value) == 2,
{
    uuid::Uuid::new_v4().as_u128()
}

/// Calls uuid's `Display` (`to_string`) on `uuid::Uuid::from_u128(value)`.
/// Trusted: the text is the lowercase hyphenated form, which is what `Display` delegates to.
#[verifier::external_body]
fn uuid_to_string(value: u128) -> (text: String)
    ensures
        text@ == uuid_hyphenated(value),
{
    uuid::Uuid::from_u128(value).to_string()
}

/// Calls `uuid::Uuid::parse_str` and returns the parsed value, or the message of its error.
/// Trusted: a text is accepted exactly when it has one of the four shapes of `uuid_digits`
/// with hexadecimal digits, and then gives their value; the error's message is the name
/// `uuid_parse_error` of the text.
#[verifier::external_body]
fn uuid_parse(text: &str) -> (parsed: Result<u128, String>)
    ensures
        parsed is Ok <==> uuid_text_value(text@) is Some,
        parsed matches Ok(v) ==> uuid_text_value(text@) == Some(v as int),
        parsed matches Err(m) ==> m@ == uuid_parse_error(text@),
{
    match uuid::Uuid::parse_str(text) {
        Ok(u) => Ok(u.as_u128()),
        Err(e) => Err(e.to_string()),
    }
}

// ---------------------------------------------------------------------------------------------
// Task identifiers
// ---------------------------------------------------------------------------------------------

/// The unique identifier of a task.
#[derive(Clone, Copy, Debug, PartialEq, Eq, Structural)]
pub struct TaskId {
    value: u128,
}

impl View for TaskId {
    type V = u128;

    closed spec fn view(&self) -> u128 {
        self.value
    }
}

impl TaskId {
    /// Generate a new random task ID (a version 4 UUID).
    pub fn new() -> (id: TaskId)
        ensures
            uuid_version(id@) == 4,
            uuid_variant(id@) == 2,
    {
        TaskId { value: uuid_new_v4() }
    }

    /// The identifier with the given 128-bit value.
    pub fn from_u128(value: u128) -> (id: TaskId)
        ensures
            id@ == value,
    {
        TaskId { value }
    }

    /// The 128-bit value of the identifier.
    pub fn as_u128(&self) -> (value: u128)
        ensures
            value == self@,
    {
        self.value
    }

    /// The hyphenated lowercase text of the identifier.
    pub fn to_string(&self) -> (text: String)
        ensures
            text@ == uuid_hyphenated(self@),
    {
        uuid_to_string(self.value)
    }

    /// Parse an identifier from its text, in any of the four shapes that uuid accepts. The
    /// text of every identifier parses back to it; a text that uuid refuses fails with
    /// `InvalidTaskId`, carrying uuid's message.
    pub fn from_str(text: &str) -> (parsed: Result<TaskId, crate::error::Error>)
        ensures
            match uuid_text_value(text@) {
                Some(v) => parsed matches Ok(id) && id@ == v,
                None => parsed matches Err(crate::error::Error::InvalidTaskId(m)) && m@ == uuid_parse_error(text@),
            },
            forall|id: TaskId| text@ == uuid_hyphenated(id@) ==> parsed == Ok::<TaskId, crate::error::Error>(id),
    {
        match uuid_parse(text) {
            Ok(value) => {
                let r = Ok(TaskId { value });
                proof {
                    assert forall|id: TaskId| text@ == uuid_hyphenated(id@) implies r == Ok::<TaskId, crate::error::Error>(id) by {
                        lemma_hyphenated_parses_back(id.value);
                    }
                }
                r
            },
            Err(message) => {
                proof {
                    assert forall|id: TaskId| !(text@ == uuid_hyphenated(id@)) by {
                        if text@ == uuid_hyphenated(id@) {
                            lemma_hyphenated_parses_back(id.value);
                        }
                    }
                }
                Err(crate::error::Error::InvalidTaskId(message))
            },
        }
    }
}

impl std::str::FromStr for TaskId {
    type Err = crate::error::Error;

    fn from_str(text: &str) -> Result<TaskId, crate::error::Error> {
        TaskId::from_str(text)
    }
}

// ---------------------------------------------------------------------------------------------
// Task status
// ---------------------------------------------------------------------------------------------

/// The different states a task may be in.
#[derive(Clone, Copy, Debug, PartialEq, Eq, Structural)]
pub enum TaskStatus {
    Pending,
    Claimed,
    Running,
    Complete,
    Failed,
}

impl TaskStatus {
    /// Whether the status is final: a finished task makes no more progress.
    pub open spec fn spec_is_finished(self) -> bool {
        self is Complete || self is Failed
    }

    /// Returns true if the task is finished and won't make any more progress.
    pub fn is_finished(self) -> (finished: bool)
        ensures
            finished == self.spec_is_finished(),
    {
        match self {
            TaskStatus::Pending | TaskStatus::Claimed | TaskStatus::Running => false,
            TaskStatus::Complete | TaskStatus::Failed => true,
        }
    }
}

// ---------------------------------------------------------------------------------------------
// Requests and summaries
// ---------------------------------------------------------------------------------------------

/// What a task runs: a command line and the environment variables it is given.
pub struct TaskRequest {
    pub cmdline: Vec<String>,
    pub environment: HashMap<String, String>,
}

/// The contents of a task request.
pub struct TaskRequestView {
    pub cmdline: Seq<String>,
    pub environment: Map<String, String>,
}

impl View for TaskRequest {
    type V = TaskRequestView;

    open spec fn view(&self) -> TaskRequestView {
        TaskRequestView { cmdline: self.cmdline@, environment: self.environment@ }
    }
}

impl Clone for TaskRequest {
    fn clone(&self) -> (copy: Self)
        ensures
            copy@ == self@,
    {
        let cmdline = self.cmdline.clone();
        assert(cmdline@ =~= self.cmdline@);
        TaskRequest { cmdline, environment: self.environment.clone() }
    }
}

/// The identifier and the current status of a task.
#[derive(Clone, Copy, Debug, PartialEq, Eq, Structural)]
pub struct TaskInfo {
    pub id: TaskId,
    pub status: TaskStatus,
}

} // verus!
