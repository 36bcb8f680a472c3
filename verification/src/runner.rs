//! The decisions of the workload runner: which witnesses a property replays,
//! in which order all properties run, how the counts of runs add up, and
//! the JSON line that reports a run. Running the testing frameworks, timing
//! and printing are left to the program around the library.

use vstd::prelude::*;

use crate::etna::{
    property_from_hex_rejects_whitespace, property_invalid_char_error_display_escaped,
    PropertyResult,
};
use crate::text::{decimal, digit, digit_char, hex_char_value, push_decimal, str_eq};

verus! {

/// What one run measured: the number of inputs tried and the time taken.
#[derive(Clone, Copy)]
pub struct Metrics {
    pub inputs: u64,
    pub elapsed_us: u128,
}

impl Default for Metrics {
    fn default() -> (m: Metrics)
        ensures
            m.inputs == 0,
            m.elapsed_us == 0,
    {
        Metrics { inputs: 0, elapsed_us: 0 }
    }
}

impl Metrics {
    /// The counts of two runs together.
    pub fn combine(self, other: Metrics) -> (m: Metrics)
        requires
            self.inputs + other.inputs <= u64::MAX,
            self.elapsed_us + other.elapsed_us <= u128::MAX,
        ensures
            m.inputs == self.inputs + other.inputs,
            m.elapsed_us == self.elapsed_us + other.elapsed_us,
    {
        Metrics { inputs: self.inputs + other.inputs, elapsed_us: self.elapsed_us + other.elapsed_us }
    }
}

/// The names of the properties, in the order in which `All` runs them.
pub open spec fn property_names() -> Seq<Seq<char>> {
    seq!["FromHexRejectsWhitespace"@, "InvalidCharErrorDisplayEscaped"@]
}

/// The name of the property at `i` in the order of `property_names`.
fn property_name(i: usize) -> (s: &'static str)
    requires
        i < 2,
    ensures
        s@ == property_names()[i as int],
{
    if i == 0 {
        "FromHexRejectsWhitespace"
    } else {
        "InvalidCharErrorDisplayEscaped"
    }
}

/// The run of all properties one after the other, which stops at the first
/// that fails.
pub struct AllRun {
    next: usize,
    total: Metrics,
    failed: bool,
}

impl AllRun {
    /// How many properties have been run.
    pub closed spec fn done(&self) -> nat {
        self.next as nat
    }

    /// The counts of the runs so far, added up.
    pub closed spec fn total_spec(&self) -> Metrics {
        self.total
    }

    /// Whether a property has failed.
    pub closed spec fn has_failed(&self) -> bool {
        self.failed
    }

    #[verifier::type_invariant]
    closed spec fn inv(&self) -> bool {
        self.next <= 2
    }

    /// A run in which nothing has run yet.
    pub fn new() -> (r: AllRun)
        ensures
            r.done() == 0,
            r.total_spec().inputs == 0,
            r.total_spec().elapsed_us == 0,
            !r.has_failed(),
    {
        AllRun { next: 0, total: Metrics { inputs: 0, elapsed_us: 0 }, failed: false }
    }

    /// The property to run next: none once all have run or one has failed.
    pub fn next_property(&self) -> (p: Option<&'static str>)
        ensures
            self.done() <= 2,
            (self.has_failed() || self.done() == 2) ==> p is None,
            (!self.has_failed() && self.done() < 2) ==> (p matches Some(s) && s@
                == property_names()[self.done() as int]),
    {
        proof {
            use_type_invariant(self);
        }
        if self.failed || self.next >= 2 {
            None
        } else {
            Some(property_name(self.next))
        }
    }

    /// The counts so far.
    pub fn total(&self) -> (m: Metrics)
        ensures
            m == self.total_spec(),
    {
        self.total
    }

    /// Records the outcome of the property that `next_property` named: its
    /// counts are added to the total, and the run stops on a failure, whose
    /// message is handed back.
    pub fn record(&mut self, result: Result<(), String>, m: Metrics) -> (r: Result<(), String>)
        requires
            !old(self).has_failed(),
            old(self).done() < 2,
            old(self).total_spec().inputs + m.inputs <= u64::MAX,
            old(self).total_spec().elapsed_us + m.elapsed_us <= u128::MAX,
        ensures
            final(self).done() == old(self).done() + 1,
            final(self).total_spec().inputs == old(self).total_spec().inputs + m.inputs,
            final(self).total_spec().elapsed_us == old(self).total_spec().elapsed_us
                + m.elapsed_us,
            final(self).has_failed() == (result is Err),
            r == result,
    {
        self.total = self.total.combine(m);
        self.next = self.next + 1;
        self.failed = result.is_err();
        result
    }
}

/// A property's outcome as the outcome of a run: a failure's message is the
/// run's error; a pass or a discard is a success.
pub open spec fn run_outcome(r: PropertyResult) -> Result<(), String> {
    match r {
        PropertyResult::Fail(m) => Err(m),
        _ => Ok(()),
    }
}

/// The message of a failed property, as the error of a run.
fn fail_message(r: PropertyResult) -> (o: Result<(), String>)
    ensures
        o == run_outcome(r),
        r is Pass || r is Discard ==> o == Ok::<(), String>(()),
{
    match r {
        PropertyResult::Fail(m) => Err(m),
        _ => Ok(()),
    }
}

/// Replays the fixed witness inputs of the property named `property`:
/// for `FromHexRejectsWhitespace`, a space injected at the first pair of six
/// bytes and a tab at the third pair of eight; for
/// `InvalidCharErrorDisplayEscaped`, the bytes NUL and ESC. `None` for a name
/// that is not one of the two; else the first failure's message, which the
/// properties never give.
pub fn replay_witnesses(property: &str) -> (r: Option<Result<(), String>>)
    ensures
        (property@ == property_names()[0] || property@ == property_names()[1]) ==> r
            == Some(Ok::<(), String>(())),
        !(property@ == property_names()[0] || property@ == property_names()[1]) ==> r is None,
{
    proof {
        reveal_strlit("FromHexRejectsWhitespace");
        reveal_strlit("InvalidCharErrorDisplayEscaped");
        assert("FromHexRejectsWhitespace"@[0] != "InvalidCharErrorDisplayEscaped"@[0]);
    }
    if str_eq(property, "FromHexRejectsWhitespace") {
        let case1 = property_from_hex_rejects_whitespace(
            vec![0xff, 0xaa, 0xbb, 0xcc, 0xdd, 0xee],
            0,
            0,
        );
        let case2 = property_from_hex_rejects_whitespace(
            vec![0x12, 0x34, 0x56, 0x78, 0x9a, 0xbc, 0xde, 0xf0],
            2,
            1,
        );
        Some(first_failure(case1, case2))
    } else if str_eq(property, "InvalidCharErrorDisplayEscaped") {
        let case1 = property_invalid_char_error_display_escaped(0x00);
        let case2 = property_invalid_char_error_display_escaped(0x1b);
        Some(first_failure(case1, case2))
    } else {
        None
    }
}

/// The first failure of two outcomes, or success.
fn first_failure(a: PropertyResult, b: PropertyResult) -> (o: Result<(), String>)
    ensures
        o == (if a is Fail {
            run_outcome(a)
        } else {
            run_outcome(b)
        }),
        (a is Pass || a is Discard) && (b is Pass || b is Discard) ==> o == Ok::<(), String>(()),
{
    match a {
        PropertyResult::Fail(m) => Err(m),
        _ => fail_message(b),
    }
}

/// How a run of a property-testing tool ended.
pub enum RunStatus {
    /// Every input passed.
    Finished,
    /// An input failed; `arguments` shows it, one text per argument.
    Failed { arguments: Vec<String> },
    /// The tool stopped on an error of its own.
    Aborted { error: String },
    /// The run ran out of time.
    TimedOut,
    /// Too many inputs were discarded.
    GaveUp { passed: usize, discarded: usize },
}

/// The texts of `args`, separated by single spaces.
pub open spec fn join_spaced(args: Seq<Seq<char>>) -> Seq<char>
    decreases args.len(),
{
    if args.len() == 0 {
        Seq::empty()
    } else if args.len() == 1 {
        args[0]
    } else {
        join_spaced(args.drop_last()) + seq![' '] + args.last()
    }
}

/// Joining two non-empty lists of texts gives the join of the first, one
/// space, and the join of the second: every two neighbouring texts are
/// separated by exactly one space, however many there are.
pub proof fn lemma_join_spaced_concat(a: Seq<Seq<char>>, b: Seq<Seq<char>>)
    requires
        a.len() > 0,
        b.len() > 0,
    ensures
        join_spaced(a + b) == join_spaced(a) + seq![' '] + join_spaced(b),
    decreases b.len(),
{
    let ab = a + b;
    assert(ab.drop_last() =~= a + b.drop_last());
    assert(ab.last() == b.last());
    if b.len() == 1 {
        assert(a + b.drop_last() =~= a);
    } else {
        lemma_join_spaced_concat(a, b.drop_last());
        assert(join_spaced(a) + seq![' '] + join_spaced(b.drop_last()) + seq![' '] + b.last()
            =~= join_spaced(a) + seq![' '] + (join_spaced(b.drop_last()) + seq![' '] + b.last()));
    }
}

/// A single text joins to itself.
pub proof fn lemma_join_spaced_single(x: Seq<char>)
    ensures
        join_spaced(seq![x]) == x,
{
}

/// The views of a list of strings.
pub open spec fn string_views(v: Seq<String>) -> Seq<Seq<char>> {
    v.map_values(|a: String| a@)
}

/// The message with which a run of `tool` that ended as `status` fails: the
/// failing arguments in parentheses, or what the tool says of an abort, a
/// time-out or giving up. A finished run has none.
pub open spec fn status_message(tool: Seq<char>, status: RunStatus) -> Seq<char> {
    match status {
        RunStatus::Finished => Seq::empty(),
        RunStatus::Failed { arguments } => seq!['('] + join_spaced(string_views(arguments@)) + seq![
            ')',
        ],
        RunStatus::Aborted { error } => tool + " aborted: "@ + error@,
        RunStatus::TimedOut => tool + " timed out"@,
        RunStatus::GaveUp { passed, discarded } => tool + " gave up: passed="@ + decimal(
            passed as nat,
        ) + ", discarded="@ + decimal(discarded as nat),
    }
}

/// The outcome of a run of `tool` that ended as `status`: success for a
/// finished run, else `status_message` as the error.
pub fn status_outcome(tool: &str, status: RunStatus) -> (r: Result<(), String>)
    ensures
        r is Ok <==> status is Finished,
        r matches Err(m) ==> m@ == status_message(tool@, status),
{
    match status {
        RunStatus::Finished => Ok(()),
        RunStatus::Failed { arguments } => {
            let ghost views = string_views(arguments@);
            let mut m = String::new();
            m.push('(');
            let mut i: usize = 0;
            while i < arguments.len()
                invariant
                    i <= arguments@.len(),
                    views == string_views(arguments@),
                    m@ == seq!['('] + join_spaced(views.take(i as int)),
                decreases arguments.len() - i,
            {
                if i > 0 {
                    m.push(' ');
                }
                m.append(arguments[i].as_str());
                proof {
                    let t = views.take(i + 1);
                    assert(t.drop_last() =~= views.take(i as int));
                    assert(t.last() == arguments@[i as int]@);
                    if i == 0 {
                        assert(join_spaced(views.take(0)) =~= Seq::<char>::empty());
                    }
                    assert(m@ =~= seq!['('] + join_spaced(t));
                }
                i = i + 1;
            }
            m.push(')');
            assert(views.take(views.len() as int) =~= views);
            Err(m)
        },
        RunStatus::Aborted { error } => {
            let mut m = String::from_str(tool);
            m.append(" aborted: ");
            m.append(error.as_str());
            Err(m)
        },
        RunStatus::TimedOut => {
            let mut m = String::from_str(tool);
            m.append(" timed out");
            Err(m)
        },
        RunStatus::GaveUp { passed, discarded } => {
            let mut m = String::from_str(tool);
            m.append(" gave up: passed=");
            push_decimal(&mut m, passed as u128);
            m.append(", discarded=");
            push_decimal(&mut m, discarded as u128);
            Err(m)
        },
    }
}

/// The error for a property name that the runner does not know: with the
/// tool named where one is given.
pub fn unknown_property_message(tool: Option<&str>, property: &str) -> (m: String)
    ensures
        m@ == (match tool {
            Some(t) => "Unknown property for "@ + t@ + ": "@ + property@,
            None => "Unknown property: "@ + property@,
        }),
{
    match tool {
        Some(t) => {
            let mut m = String::from_str("Unknown property for ");
            m.append(t);
            m.append(": ");
            m.append(property);
            m
        },
        None => {
            let mut m = String::from_str("Unknown property: ");
            m.append(property);
            m
        },
    }
}

/// The error for a tool name that the runner does not know.
pub fn unknown_tool_message(tool: &str) -> (m: String)
    ensures
        m@ == "Unknown tool: "@ + tool@,
{
    let mut m = String::from_str("Unknown tool: ");
    m.append(tool);
    m
}

/// Whether `s` begins with `prefix`; if so, the rest of `s` after it.
pub fn strip_prefix<'a>(s: &'a str, prefix: &str) -> (r: Option<&'a str>)
    ensures
        prefix@.is_prefix_of(s@) <==> r is Some,
        r matches Some(rest) ==> rest@ == s@.skip(prefix@.len() as int),
{
    let n = prefix.unicode_len();
    let len = s.unicode_len();
    if n > len {
        return None;
    }
    let mut i: usize = 0;
    while i < n
        invariant
            n == prefix@.len(),
            len == s@.len(),
            n <= len,
            i <= n,
            forall|j: int| 0 <= j < i ==> prefix@[j] == s@[j],
        decreases n - i,
    {
        if prefix.get_char(i) != s.get_char(i) {
            return None;
        }
        i = i + 1;
    }
    assert(prefix@ =~= s@.subrange(0, n as int));
    let rest = s.substring_char(n, len);
    assert(rest@ =~= s@.skip(n as int));
    Some(rest)
}

/// What a panic of a hegel run says, once read: an unknown property, with
/// the error to report for it, or a failure, with its message.
pub enum HegelPanic {
    UnknownProperty(String),
    Failed(String),
}

/// The marker with which the runner's own panic names an unknown property.
pub open spec fn unknown_marker() -> Seq<char> {
    "__unknown_property:"@
}

/// Reads the text of a panic of a hegel run. A text that begins with the
/// marker `__unknown_property:` names an unknown property, and gives the
/// unknown-property error for hegel. Any other text is a failure, whose
/// message is the text with a leading `Property test failed: ` removed.
pub fn read_hegel_panic(msg: &str) -> (r: HegelPanic)
    ensures
        unknown_marker().is_prefix_of(msg@) ==> (r matches HegelPanic::UnknownProperty(m) && m@
            == "Unknown property for hegel: "@ + msg@.skip(unknown_marker().len() as int)),
        !unknown_marker().is_prefix_of(msg@) ==> (r matches HegelPanic::Failed(m) && m@ == (if "Property test failed: "@.is_prefix_of(msg@) {
            msg@.skip("Property test failed: "@.len() as int)
        } else {
            msg@
        })),
{
    if let Some(rest) = strip_prefix(msg, "__unknown_property:") {
        let mut m = String::from_str("Unknown property for hegel: ");
        m.append(rest);
        return HegelPanic::UnknownProperty(m);
    }
    match strip_prefix(msg, "Property test failed: ") {
        Some(rest) => HegelPanic::Failed(String::from_str(rest)),
        None => HegelPanic::Failed(String::from_str(msg)),
    }
}

/// The testing tools that the runner drives.
pub enum Tool {
    Etna,
    Proptest,
    Quickcheck,
    Crabcheck,
    Hegel,
}

impl Tool {
    /// The tool named `name`: `etna`, `proptest`, `quickcheck`, `crabcheck`
    /// or `hegel`; none for another name.
    pub fn from_name(name: &str) -> (t: Option<Tool>)
        ensures
            name@ == "etna"@ <==> t matches Some(Tool::Etna),
            name@ == "proptest"@ <==> t matches Some(Tool::Proptest),
            name@ == "quickcheck"@ <==> t matches Some(Tool::Quickcheck),
            name@ == "crabcheck"@ <==> t matches Some(Tool::Crabcheck),
            name@ == "hegel"@ <==> t matches Some(Tool::Hegel),
    {
        proof {
            reveal_strlit("etna");
            reveal_strlit("proptest");
            reveal_strlit("quickcheck");
            reveal_strlit("crabcheck");
            reveal_strlit("hegel");
            assert("etna"@[0] == 'e');
            assert("proptest"@[0] == 'p');
            assert("quickcheck"@[0] == 'q');
            assert("crabcheck"@[0] == 'c');
            assert("hegel"@[0] == 'h');
        }
        if str_eq(name, "etna") {
            Some(Tool::Etna)
        } else if str_eq(name, "proptest") {
            Some(Tool::Proptest)
        } else if str_eq(name, "quickcheck") {
            Some(Tool::Quickcheck)
        } else if str_eq(name, "crabcheck") {
            Some(Tool::Crabcheck)
        } else if str_eq(name, "hegel") {
            Some(Tool::Hegel)
        } else {
            None
        }
    }
}

/// How a character stands inside a JSON string: the quote, the backslash,
/// line feed, carriage return and tab by their short escapes, other control
/// characters below 0x20 as `\u00XX`, and any other character as itself.
pub open spec fn json_char(c: char) -> Seq<char> {
    if c == '"' {
        seq!['\\', '"']
    } else if c == '\\' {
        seq!['\\', '\\']
    } else if c == '\n' {
        seq!['\\', 'n']
    } else if c == '\r' {
        seq!['\\', 'r']
    } else if c == '\t' {
        seq!['\\', 't']
    } else if (c as u32) < 0x20 {
        seq![
            '\\',
            'u',
            '0',
            '0',
            digit_char(((c as u32) / 16) as int),
            digit_char(((c as u32) % 16) as int),
        ]
    } else {
        seq![c]
    }
}

/// The escaped characters of `s`, one after the other.
pub open spec fn json_body(s: Seq<char>) -> Seq<char>
    decreases s.len(),
{
    if s.len() == 0 {
        Seq::empty()
    } else {
        json_body(s.drop_last()) + json_char(s.last())
    }
}

/// No character of `s` is below 0x20: none that JSON forbids raw in a string.
pub open spec fn no_raw_control(s: Seq<char>) -> bool {
    forall|i: int| 0 <= i < s.len() ==> (#[trigger] s[i] as u32) >= 0x20
}

proof fn lemma_no_raw_control_concat(a: Seq<char>, b: Seq<char>)
    requires
        no_raw_control(a),
        no_raw_control(b),
    ensures
        no_raw_control(a + b),
{
    assert forall|i: int| 0 <= i < (a + b).len() implies (#[trigger] (a + b)[i] as u32) >= 0x20 by {
        if i < a.len() {
            assert((a + b)[i] == a[i]);
        } else {
            assert((a + b)[i] == b[i - a.len()]);
        }
    }
}

/// The escaped form of any string holds no raw control character.
proof fn lemma_json_body_no_raw_control(s: Seq<char>)
    ensures
        no_raw_control(json_body(s)),
    decreases s.len(),
{
    if s.len() > 0 {
        lemma_json_body_no_raw_control(s.drop_last());
        let c = s.last();
        assert(no_raw_control(json_char(c)));
        lemma_no_raw_control_concat(json_body(s.drop_last()), json_char(c));
    }
}

/// `s` as a JSON string literal.
pub open spec fn json_string(s: Seq<char>) -> Seq<char> {
    seq!['"'] + json_body(s) + seq!['"']
}

/// `s` as a JSON string literal: quoted, with the escapes of `json_char`.
pub fn json_str(s: &str) -> (r: String)
    ensures
        r@ == json_string(s@),
        no_raw_control(r@),
        json_read_string(r@) == Some(s@),
{
    let mut out = String::new();
    out.push('"');
    let n = s.unicode_len();
    let mut i: usize = 0;
    while i < n
        invariant
            n == s@.len(),
            i <= n,
            out@ == seq!['"'] + json_body(s@.take(i as int)),
        decreases n - i,
    {
        let c = s.get_char(i);
        let ghost before = out@;
        if c == '"' {
            out.push('\\');
            out.push('"');
        } else if c == '\\' {
            out.push('\\');
            out.push('\\');
        } else if c == '\n' {
            out.push('\\');
            out.push('n');
        } else if c == '\r' {
            out.push('\\');
            out.push('r');
        } else if c == '\t' {
            out.push('\\');
            out.push('t');
        } else if (c as u32) < 0x20 {
            let v: u32 = c as u32;
            out.push('\\');
            out.push('u');
            out.push('0');
            out.push('0');
            out.push(digit((v / 16) as u8));
            out.push(digit((v % 16) as u8));
        } else {
            out.push(c);
        }
        proof {
            let t = s@.take(i + 1);
            assert(t.drop_last() =~= s@.take(i as int));
            assert(t.last() == c);
            assert(out@ =~= before + json_char(c));
        }
        i = i + 1;
    }
    out.push('"');
    assert(s@.take(n as int) =~= s@);
    proof {
        lemma_json_body_no_raw_control(s@);
        lemma_no_raw_control_concat(seq!['"'], json_body(s@));
        lemma_no_raw_control_concat(seq!['"'] + json_body(s@), seq!['"']);
        lemma_json_string_reads_back(s@);
    }
    out
}

/// The number that the four hexadecimal digits `t[at..at + 4]` stand for,
/// or none where there are not four such digits.
pub open spec fn hex4(t: Seq<char>, at: int) -> Option<int> {
    if 0 <= at && at + 4 <= t.len() {
        match (
            hex_char_value(t[at]),
            hex_char_value(t[at + 1]),
            hex_char_value(t[at + 2]),
            hex_char_value(t[at + 3]),
        ) {
            (Some(a), Some(b), Some(c), Some(d)) => Some(a * 4096 + b * 256 + c * 16 + d),
            _ => None,
        }
    } else {
        None
    }
}

/// The character that the two-character JSON escape `\` + `e` stands for,
/// or none where `e` starts no such escape.
pub open spec fn json_short_escape(e: char) -> Option<char> {
    if e == '"' {
        Some('"')
    } else if e == '\\' {
        Some('\\')
    } else if e == '/' {
        Some('/')
    } else if e == 'b' {
        Some('\x08')
    } else if e == 'f' {
        Some('\x0c')
    } else if e == 'n' {
        Some('\n')
    } else if e == 'r' {
        Some('\r')
    } else if e == 't' {
        Some('\t')
    } else {
        None
    }
}

/// `p` put in front of the characters that `o` holds, if it holds any.
pub open spec fn prepend_opt(p: Seq<char>, o: Option<Seq<char>>) -> Option<Seq<char>> {
    match o {
        Some(r) => Some(p + r),
        None => None,
    }
}

/// The characters that the body `t` of a JSON string literal (what stands
/// between its quotes) stands for, as a JSON reader takes them; none where
/// `t` is no valid body: a raw quote or control character, an unknown
/// escape, or a `\u` escape of a surrogate that is not a high one followed
/// by the escape of a low one.
pub open spec fn json_unescape(t: Seq<char>) -> Option<Seq<char>>
    decreases t.len(),
{
    if t.len() == 0 {
        Some(Seq::empty())
    } else if t[0] == '\\' {
        if t.len() < 2 {
            None
        } else if t[1] == 'u' {
            match hex4(t, 2) {
                None => None,
                Some(v) => if 0xd800 <= v < 0xdc00 {
                    if t.len() >= 12 && t[6] == '\\' && t[7] == 'u' {
                        match hex4(t, 8) {
                            Some(w) => if 0xdc00 <= w < 0xe000 {
                                prepend_opt(
                                    seq![(0x10000 + (v - 0xd800) * 0x400 + (w - 0xdc00)) as char],
                                    json_unescape(t.skip(12)),
                                )
                            } else {
                                None
                            },
                            None => None,
                        }
                    } else {
                        None
                    }
                } else if 0xdc00 <= v < 0xe000 {
                    None
                } else {
                    prepend_opt(seq![v as char], json_unescape(t.skip(6)))
                },
            }
        } else {
            match json_short_escape(t[1]) {
                Some(c) => prepend_opt(seq![c], json_unescape(t.skip(2))),
                None => None,
            }
        }
    } else if t[0] == '"' || (t[0] as u32) < 0x20 {
        None
    } else {
        prepend_opt(seq![t[0]], json_unescape(t.skip(1)))
    }
}

/// The string that the JSON string literal `t` stands for: `t` is a quote,
/// a valid body and a quote. None where it is not such a literal.
pub open spec fn json_read_string(t: Seq<char>) -> Option<Seq<char>> {
    if t.len() >= 2 && t[0] == '"' && t[t.len() - 1] == '"' {
        json_unescape(t.subrange(1, t.len() - 1))
    } else {
        None
    }
}

proof fn lemma_hex_char_value_of_digit(d: int)
    requires
        0 <= d < 16,
    ensures
        hex_char_value(digit_char(d)) == Some(d),
{
}

/// Reading the escape of one character gives that character, before what
/// follows is read.
proof fn lemma_unescape_json_char(c: char, rest: Seq<char>)
    ensures
        json_unescape(json_char(c) + rest) == prepend_opt(seq![c], json_unescape(rest)),
{
    let t = json_char(c) + rest;
    let v = c as u32;
    if c == '"' || c == '\\' || c == '\n' || c == '\r' || c == '\t' {
        assert(t.skip(2) =~= rest);
    } else if v < 0x20 {
        lemma_hex_char_value_of_digit((v / 16) as int);
        lemma_hex_char_value_of_digit((v % 16) as int);
        assert(t[2] == '0' && t[3] == '0');
        assert(hex4(t, 2) == Some(v as int));
        assert((v as int) as char == c);
        assert(t.skip(6) =~= rest);
    } else {
        assert(t.skip(1) =~= rest);
    }
}

/// Reading the escaped characters of `p`, followed by `rest`, gives `p`
/// followed by what `rest` reads as.
proof fn lemma_unescape_json_body(p: Seq<char>, rest: Seq<char>)
    ensures
        json_unescape(json_body(p) + rest) == prepend_opt(p, json_unescape(rest)),
    decreases p.len(),
{
    if p.len() == 0 {
        assert(json_body(p) + rest =~= rest);
        match json_unescape(rest) {
            Some(r) => {
                assert(p + r =~= r);
            },
            None => {},
        }
    } else {
        let q = p.drop_last();
        let c = p.last();
        assert(json_body(p) + rest =~= json_body(q) + (json_char(c) + rest));
        lemma_unescape_json_body(q, json_char(c) + rest);
        lemma_unescape_json_char(c, rest);
        match json_unescape(rest) {
            Some(r) => {
                assert(q + (seq![c] + r) =~= p + r);
            },
            None => {},
        }
    }
}

/// Read back as a JSON string literal, the text that `json_str` makes of
/// `s` stands for `s` itself.
pub proof fn lemma_json_string_reads_back(s: Seq<char>)
    ensures
        json_read_string(json_string(s)) == Some(s),
{
    let t = json_string(s);
    assert(t.subrange(1, t.len() - 1) =~= json_body(s));
    assert(json_body(s) + Seq::<char>::empty() =~= json_body(s));
    lemma_unescape_json_body(s, Seq::empty());
    assert(s + Seq::<char>::empty() =~= s);
}

/// A JSON value for an optional string: the string, or `null`.
pub open spec fn json_opt(o: Option<Seq<char>>) -> Seq<char> {
    match o {
        Some(s) => json_string(s),
        None => "null"@,
    }
}

/// The view of an optional string.
pub open spec fn opt_view(o: Option<&str>) -> Option<Seq<char>> {
    match o {
        Some(s) => Some(s@),
        None => None,
    }
}

/// The JSON line that reports one run.
pub open spec fn json_report(
    tool: Seq<char>,
    property: Seq<char>,
    status: Seq<char>,
    metrics: Metrics,
    counterexample: Option<Seq<char>>,
    error: Option<Seq<char>>,
) -> Seq<char> {
    "{\"status\":"@ + json_string(status) + ",\"tests\":"@ + decimal(metrics.inputs as nat)
        + ",\"discards\":0,\"time\":"@ + json_string(decimal(metrics.elapsed_us as nat) + "us"@)
        + ",\"counterexample\":"@ + json_opt(counterexample) + ",\"error\":"@ + json_opt(error)
        + ",\"tool\":"@ + json_string(tool) + ",\"property\":"@ + json_string(property) + "}"@
}

/// `f` occurs in `s` at some position.
pub open spec fn occurs_in(f: Seq<char>, s: Seq<char>) -> bool {
    exists|i: int| 0 <= i && i + f.len() <= s.len() && #[trigger] s.subrange(i, i + f.len()) == f
}

proof fn lemma_null_counterexample_field()
    ensures
        ",\"counterexample\":"@ + "null"@ + ",\"error\":"@ == ",\"counterexample\":null,\"error\":"@,
{
    reveal_strlit(",\"counterexample\":");
    reveal_strlit("null");
    reveal_strlit(",\"error\":");
    reveal_strlit(",\"counterexample\":null,\"error\":");
    assert(",\"counterexample\":"@ + "null"@ + ",\"error\":"@ =~= ",\"counterexample\":null,\"error\":"@);
}

proof fn lemma_null_error_field()
    ensures
        ",\"error\":"@ + "null"@ + ",\"tool\":"@ == ",\"error\":null,\"tool\":"@,
{
    reveal_strlit(",\"error\":");
    reveal_strlit("null");
    reveal_strlit(",\"tool\":");
    reveal_strlit(",\"error\":null,\"tool\":");
    assert(",\"error\":"@ + "null"@ + ",\"tool\":"@ =~= ",\"error\":null,\"tool\":"@);
}

/// The report of a run holds each field as its name followed by its value,
/// each value depending only on its own argument: the status field holds the
/// JSON string of the status; the counterexample field holds the JSON string
/// of the counterexample, or `null`, whatever the error is; the error field
/// holds the JSON string of the error, or `null`, whatever the
/// counterexample is; the tool and property fields hold their JSON strings.
pub proof fn lemma_report_fields(
    tool: Seq<char>,
    property: Seq<char>,
    status: Seq<char>,
    metrics: Metrics,
    counterexample: Option<Seq<char>>,
    error: Option<Seq<char>>,
)
    ensures
        ({
            let r = json_report(tool, property, status, metrics, counterexample, error);
            &&& occurs_in("{\"status\":"@ + json_string(status) + ",\"tests\":"@, r)
            &&& counterexample matches Some(c) ==> occurs_in(
                ",\"counterexample\":"@ + json_string(c) + ",\"error\":"@,
                r,
            )
            &&& counterexample is None ==> occurs_in(",\"counterexample\":null,\"error\":"@, r)
            &&& error matches Some(e) ==> occurs_in(
                ",\"error\":"@ + json_string(e) + ",\"tool\":"@,
                r,
            )
            &&& error is None ==> occurs_in(",\"error\":null,\"tool\":"@, r)
            &&& occurs_in(
                ",\"tool\":"@ + json_string(tool) + ",\"property\":"@ + json_string(property)
                    + "}"@,
                r,
            )
        }),
{
    lemma_report_status_field(tool, property, status, metrics, counterexample, error);
    lemma_report_counterexample_field(tool, property, status, metrics, counterexample, error);
    lemma_report_error_field(tool, property, status, metrics, counterexample, error);
    if counterexample is None {
        lemma_null_counterexample_field();
    }
    if error is None {
        lemma_null_error_field();
    }
    lemma_report_tail(tool, property, status, metrics, counterexample, error);
}

proof fn lemma_report_status_field(
    tool: Seq<char>,
    property: Seq<char>,
    status: Seq<char>,
    metrics: Metrics,
    counterexample: Option<Seq<char>>,
    error: Option<Seq<char>>,
)
    ensures
        occurs_in(
            "{\"status\":"@ + json_string(status) + ",\"tests\":"@,
            json_report(tool, property, status, metrics, counterexample, error),
        ),
{
    let r = json_report(tool, property, status, metrics, counterexample, error);
    let f = "{\"status\":"@ + json_string(status) + ",\"tests\":"@;
    let i: int = 0;
    assert(r.subrange(i, i + f.len()) =~= f);
}

proof fn lemma_report_counterexample_field(
    tool: Seq<char>,
    property: Seq<char>,
    status: Seq<char>,
    metrics: Metrics,
    counterexample: Option<Seq<char>>,
    error: Option<Seq<char>>,
)
    ensures
        occurs_in(
            ",\"counterexample\":"@ + json_opt(counterexample) + ",\"error\":"@,
            json_report(tool, property, status, metrics, counterexample, error),
        ),
{
    let r = json_report(tool, property, status, metrics, counterexample, error);
    let p = "{\"status\":"@ + json_string(status) + ",\"tests\":"@ + decimal(metrics.inputs as nat)
        + ",\"discards\":0,\"time\":"@ + json_string(decimal(metrics.elapsed_us as nat) + "us"@);
    let f = ",\"counterexample\":"@ + json_opt(counterexample) + ",\"error\":"@;
    assert(r.subrange(p.len() as int, (p.len() + f.len()) as int) =~= f);
}

proof fn lemma_report_error_field(
    tool: Seq<char>,
    property: Seq<char>,
    status: Seq<char>,
    metrics: Metrics,
    counterexample: Option<Seq<char>>,
    error: Option<Seq<char>>,
)
    ensures
        occurs_in(
            ",\"error\":"@ + json_opt(error) + ",\"tool\":"@,
            json_report(tool, property, status, metrics, counterexample, error),
        ),
{
    let r = json_report(tool, property, status, metrics, counterexample, error);
    let p = "{\"status\":"@ + json_string(status) + ",\"tests\":"@ + decimal(metrics.inputs as nat)
        + ",\"discards\":0,\"time\":"@ + json_string(decimal(metrics.elapsed_us as nat) + "us"@)
        + ",\"counterexample\":"@ + json_opt(counterexample);
    let f = ",\"error\":"@ + json_opt(error) + ",\"tool\":"@;
    assert(r.subrange(p.len() as int, (p.len() + f.len()) as int) =~= f);
}

proof fn lemma_report_tail(
    tool: Seq<char>,
    property: Seq<char>,
    status: Seq<char>,
    metrics: Metrics,
    counterexample: Option<Seq<char>>,
    error: Option<Seq<char>>,
)
    ensures
        occurs_in(
            ",\"tool\":"@ + json_string(tool) + ",\"property\":"@ + json_string(property) + "}"@,
            json_report(tool, property, status, metrics, counterexample, error),
        ),
{
    let r = json_report(tool, property, status, metrics, counterexample, error);
    let f = ",\"tool\":"@ + json_string(tool) + ",\"property\":"@ + json_string(property) + "}"@;
    let i: int = r.len() - f.len();
    assert(r.subrange(i, i + f.len()) =~= f);
}

fn push_json_opt(out: &mut String, o: Option<&str>)
    ensures
        final(out)@ == old(out)@ + json_opt(opt_view(o)),
{
    match o {
        Some(s) => {
            let j = json_str(s);
            out.append(j.as_str());
        },
        None => {
            out.append("null");
        },
    }
}

/// The JSON line that reports a run of `property` with `tool`: its status,
/// the number of inputs, the time in microseconds, and the counterexample
/// and error where there are any.
pub fn json_line(
    tool: &str,
    property: &str,
    status: &str,
    metrics: Metrics,
    counterexample: Option<&str>,
    error: Option<&str>,
) -> (r: String)
    ensures
        r@ == json_report(
            tool@,
            property@,
            status@,
            metrics,
            opt_view(counterexample),
            opt_view(error),
        ),
{
    let mut time = String::new();
    push_decimal(&mut time, metrics.elapsed_us);
    time.append("us");
    let mut out = String::new();
    out.append("{\"status\":");
    out.append(json_str(status).as_str());
    out.append(",\"tests\":");
    push_decimal(&mut out, metrics.inputs as u128);
    out.append(",\"discards\":0,\"time\":");
    out.append(json_str(time.as_str()).as_str());
    out.append(",\"counterexample\":");
    push_json_opt(&mut out, counterexample);
    out.append(",\"error\":");
    push_json_opt(&mut out, error);
    out.append(",\"tool\":");
    out.append(json_str(tool).as_str());
    out.append(",\"property\":");
    out.append(json_str(property).as_str());
    out.append("}");
    out
}

} // verus!
