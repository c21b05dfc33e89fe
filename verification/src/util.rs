//! Helpers on text: SQL quoting, joining, prefixes, decimal numerals and
//! the lexicographic order; the timer of status reports; and the iterator
//! over the elements of a document.

use vstd::prelude::*;
use vstd::string::StringExecFns;
use crate::config::TIME_BETWEEN_STATUS_REPORTS_MS;
use crate::import::Element;
use crate::util::stream_json::{StepView, StreamError, step, yield_next_obj};

pub mod stream_json;

verus! {

/// `String::push` appends exactly one character to the end of the string.
pub assume_specification[ std::string::String::push ](s: &mut std::string::String, ch: char)
    ensures
        final(s)@ == old(s)@.push(ch),
;

/// `==` on string slices, which is `<str as PartialEq>::eq`, holds exactly
/// when both slices hold the same characters.
pub assume_specification[ <str as PartialEq>::eq ](a: &str, b: &str) -> (r: bool)
    ensures
        r == (a@ == b@),
;

/// Whether a character is an uppercase letter, as `char::is_uppercase`
/// tells it.
pub uninterp spec fn is_uppercase(c: char) -> bool;

/// `char::is_uppercase` depends on the character alone; its answer is what
/// [`is_uppercase`] names.
#[verifier::external_body]
pub(crate) fn char_is_uppercase(c: char) -> (r: bool)
    ensures
        r == is_uppercase(c),
{
    c.is_uppercase()
}

/// The truth value that a text spells: `true` or `false`, and nothing else.
pub open spec fn spelled_bool(s: Seq<char>) -> Option<bool> {
    if s == "true"@ {
        Some(true)
    } else if s == "false"@ {
        Some(false)
    } else {
        None
    }
}

/// Reads a truth value from its text.
pub fn parse_bool(s: &str) -> (r: Option<bool>)
    ensures
        r == spelled_bool(s@),
{
    if *s == *"true" {
        Some(true)
    } else if *s == *"false" {
        Some(false)
    } else {
        None
    }
}

/// The characters of a string, in order.
pub fn to_chars(s: &str) -> (r: Vec<char>)
    ensures
        r@ == s@,
{
    broadcast use vstd::string::group_string_axioms;

    let mut out: Vec<char> = Vec::new();
    for c in iter: s.chars()
        invariant
            iter.seq() == s@,
            out@ == s@.take(iter.index() as int),
    {
        out.push(c);
    }
    out
}

/// `s` with every occurrence of `delim` written twice.
pub open spec fn doubled(s: Seq<char>, delim: char) -> Seq<char>
    decreases s.len(),
{
    if s.len() == 0 {
        Seq::empty()
    } else if s.last() == delim {
        doubled(s.drop_last(), delim).push(delim).push(delim)
    } else {
        doubled(s.drop_last(), delim).push(s.last())
    }
}

/// `s` quoted with `delim`: delimiters inside are doubled, and the whole is
/// enclosed in a pair of them.
pub open spec fn escaped(s: Seq<char>, delim: char) -> Seq<char> {
    seq![delim] + doubled(s, delim) + seq![delim]
}

/// `s` as an SQL string literal.
pub open spec fn str_lit(s: Seq<char>) -> Seq<char> {
    escaped(s, '\'')
}

/// `s` as an SQL identifier.
pub open spec fn ident(s: Seq<char>) -> Seq<char> {
    escaped(s, '"')
}

/// Quotes a string the way the SQL standard prescribes, for any quotation
/// character.
pub fn escape_sql(delim: char, str_to_escape: &str) -> (r: String)
    ensures
        r@ == escaped(str_to_escape@, delim),
{
    broadcast use vstd::string::group_string_axioms;

    let mut out = String::new();
    out.push(delim);
    for c in iter: str_to_escape.chars()
        invariant
            iter.seq() == str_to_escape@,
            out@ == seq![delim] + doubled(str_to_escape@.take(iter.index() as int), delim),
    {
        proof {
            let k = iter.index() as int;
            assert(str_to_escape@.take(k + 1).drop_last() =~= str_to_escape@.take(k));
        }
        if c == delim {
            out.push(delim);
            out.push(delim);
        } else {
            out.push(c);
        }
    }
    proof {
        assert(str_to_escape@.take(str_to_escape@.len() as int) =~= str_to_escape@);
    }
    out.push(delim);
    out
}

/// Quotes a string as an SQL string literal, in single quotes.
pub fn escape_sql_str_lit(str_to_escape: &str) -> (r: String)
    ensures
        r@ == str_lit(str_to_escape@),
{
    escape_sql('\'', str_to_escape)
}

/// Quotes a string as an SQL identifier, in double quotes.
pub fn escape_sql_ident(str_to_escape: &str) -> (r: String)
    ensures
        r@ == ident(str_to_escape@),
{
    escape_sql('"', str_to_escape)
}

/// The parts written one after another with `sep` between neighbours.
pub open spec fn joined(parts: Seq<Seq<char>>, sep: Seq<char>) -> Seq<char>
    decreases parts.len(),
{
    if parts.len() == 0 {
        Seq::empty()
    } else if parts.len() == 1 {
        parts[0]
    } else {
        joined(parts.drop_last(), sep) + sep + parts.last()
    }
}

/// The views of a vector of strings.
pub open spec fn views(parts: Seq<String>) -> Seq<Seq<char>> {
    parts.map_values(|s: String| s@)
}

/// Joins the parts with `sep` between neighbours.
pub fn join(parts: &Vec<String>, sep: &str) -> (r: String)
    ensures
        r@ == joined(views(parts@), sep@),
{
    let mut out = String::new();
    let mut i: usize = 0;
    while i < parts.len()
        invariant
            i <= parts.len(),
            out@ == joined(views(parts@).take(i as int), sep@),
        decreases parts.len() - i,
    {
        proof {
            let all = views(parts@);
            assert(all.take(i + 1).drop_last() =~= all.take(i as int));
            assert(all.take(i + 1).last() == parts@[i as int]@);
            if i == 0 {
                assert(all.take(1)[0] == parts@[0]@);
                assert(out@ + parts@[0]@ =~= parts@[0]@);
            }
        }
        if i > 0 {
            out.append(sep);
        }
        out.append(parts[i].as_str());
        i += 1;
    }
    proof {
        assert(views(parts@).take(parts@.len() as int) =~= views(parts@));
    }
    out
}

/// Whether `s` begins with `prefix`.
pub fn starts_with(s: &str, prefix: &str) -> (r: bool)
    ensures
        r == prefix@.is_prefix_of(s@),
{
    let text = to_chars(s);
    let head = to_chars(prefix);
    if head.len() > text.len() {
        return false;
    }
    let mut i: usize = 0;
    while i < head.len()
        invariant
            i <= head.len() <= text.len(),
            text@ == s@,
            head@ == prefix@,
            forall|k: int| 0 <= k < i ==> text@[k] == head@[k],
        decreases head.len() - i,
    {
        if text[i] != head[i] {
            assert(s@.subrange(0, prefix@.len() as int)[i as int] != prefix@[i as int]);
            return false;
        }
        i += 1;
    }
    assert(s@.subrange(0, prefix@.len() as int) =~= prefix@);
    true
}

/// Whether `s` ends with `suffix`.
pub fn ends_with(s: &str, suffix: &str) -> (r: bool)
    ensures
        r == suffix@.is_suffix_of(s@),
{
    let text = to_chars(s);
    let tail = to_chars(suffix);
    if tail.len() > text.len() {
        return false;
    }
    let shift: usize = text.len() - tail.len();
    let mut i: usize = 0;
    while i < tail.len()
        invariant
            i <= tail.len() <= text.len(),
            shift == text.len() - tail.len(),
            text@ == s@,
            tail@ == suffix@,
            forall|k: int| 0 <= k < i ==> text@[shift + k] == tail@[k],
        decreases tail.len() - i,
    {
        if text[shift + i] != tail[i] {
            assert(s@.subrange(s@.len() - suffix@.len(), s@.len() as int)[i as int]
                != suffix@[i as int]);
            return false;
        }
        i += 1;
    }
    assert(s@.subrange(s@.len() - suffix@.len(), s@.len() as int) =~= suffix@);
    true
}

/// The character of a decimal digit.
pub open spec fn digit_char(d: nat) -> char {
    if d == 0 {
        '0'
    } else if d == 1 {
        '1'
    } else if d == 2 {
        '2'
    } else if d == 3 {
        '3'
    } else if d == 4 {
        '4'
    } else if d == 5 {
        '5'
    } else if d == 6 {
        '6'
    } else if d == 7 {
        '7'
    } else if d == 8 {
        '8'
    } else {
        '9'
    }
}

/// The decimal numeral of `n`, without leading zeros.
pub open spec fn decimal(n: nat) -> Seq<char>
    decreases n,
{
    if n < 10 {
        seq![digit_char(n)]
    } else {
        decimal(n / 10).push(digit_char(n % 10))
    }
}

fn digit(d: u32) -> (c: char)
    requires
        d < 10,
    ensures
        c == digit_char(d as nat),
{
    if d == 0 {
        '0'
    } else if d == 1 {
        '1'
    } else if d == 2 {
        '2'
    } else if d == 3 {
        '3'
    } else if d == 4 {
        '4'
    } else if d == 5 {
        '5'
    } else if d == 6 {
        '6'
    } else if d == 7 {
        '7'
    } else if d == 8 {
        '8'
    } else {
        '9'
    }
}

/// Writes `n` as a decimal numeral.
pub fn u32_to_decimal(n: u32) -> (r: String)
    ensures
        r@ == decimal(n as nat),
{
    // digits, least significant first
    let mut low_first: Vec<char> = Vec::new();
    let mut rest: u32 = n;
    while rest >= 10
        invariant
            decimal(n as nat) == decimal(rest as nat) + low_first@.reverse(),
        decreases rest,
    {
        let c = digit(rest % 10);
        proof {
            let r = rest as nat;
            assert(decimal(r) == decimal(r / 10).push(digit_char(r % 10)));
            assert(decimal(r / 10).push(c) + low_first@.reverse() =~= decimal(r / 10)
                + low_first@.push(c).reverse());
        }
        low_first.push(c);
        rest = rest / 10;
    }
    let mut out = String::new();
    out.push(digit(rest));
    let mut i: usize = low_first.len();
    while i > 0
        invariant
            i <= low_first.len(),
            out@ == decimal(rest as nat) + low_first@.reverse().take(low_first.len() - i),
        decreases i,
    {
        i -= 1;
        proof {
            let rev = low_first@.reverse();
            let k = low_first.len() - i - 1;
            assert(rev[k] == low_first@[i as int]);
            assert(rev.take(k + 1) =~= rev.take(k).push(rev[k]));
            assert((decimal(rest as nat) + rev.take(k)).push(rev[k]) =~= decimal(rest as nat)
                + rev.take(k + 1));
        }
        out.push(low_first[i]);
    }
    proof {
        let rev = low_first@.reverse();
        assert(rev.take(low_first.len() as int) =~= rev);
    }
    out
}

/// Whether `a` comes before `b` from position `i` on, given that they agree
/// before it: the first differing character decides, and a proper prefix
/// comes first.
pub open spec fn lex_lt_from(a: Seq<char>, b: Seq<char>, i: int) -> bool
    decreases b.len() - i,
{
    if i < 0 || i >= b.len() {
        false
    } else if i >= a.len() {
        true
    } else if a[i] != b[i] {
        (a[i] as u32) < (b[i] as u32)
    } else {
        lex_lt_from(a, b, i + 1)
    }
}

/// The lexicographic order on strings by character code.
pub open spec fn lex_lt(a: Seq<char>, b: Seq<char>) -> bool {
    lex_lt_from(a, b, 0)
}

/// Whether `a` comes strictly before `b` in lexicographic order.
pub fn str_lt(a: &str, b: &str) -> (r: bool)
    ensures
        r == lex_lt(a@, b@),
{
    let left = to_chars(a);
    let right = to_chars(b);
    let mut i: usize = 0;
    while i < left.len() && i < right.len()
        invariant
            left@ == a@,
            right@ == b@,
            i <= left.len(),
            i <= right.len(),
            lex_lt(a@, b@) == lex_lt_from(a@, b@, i as int),
        decreases left.len() - i,
    {
        if left[i] != right[i] {
            return (left[i] as u32) < (right[i] as u32);
        }
        i += 1;
    }
    i < right.len()
}

proof fn lemma_lex_from_irreflexive(a: Seq<char>, i: int)
    requires
        0 <= i,
    ensures
        !lex_lt_from(a, a, i),
    decreases a.len() - i,
{
    if i < a.len() {
        lemma_lex_from_irreflexive(a, i + 1);
    }
}

proof fn lemma_lex_from_total(a: Seq<char>, b: Seq<char>, i: int)
    requires
        0 <= i <= a.len(),
        i <= b.len(),
        a.take(i) == b.take(i),
        !lex_lt_from(a, b, i),
        !lex_lt_from(b, a, i),
    ensures
        a == b,
    decreases a.len() - i,
{
    if i >= a.len() || i >= b.len() {
        assert(a.len() == b.len());
        assert(a.take(i) =~= a);
        assert(b.take(i) =~= b);
    } else {
        assert(a[i] == b[i]) by {
            vstd::utf8::char_u32_cast(a[i], a[i] as u32);
            vstd::utf8::char_u32_cast(b[i], b[i] as u32);
        }
        assert(a.take(i + 1) =~= a.take(i).push(a[i]));
        assert(b.take(i + 1) =~= b.take(i).push(b[i]));
        lemma_lex_from_total(a, b, i + 1);
    }
}

proof fn lemma_lex_from_asymmetric(a: Seq<char>, b: Seq<char>, i: int)
    requires
        0 <= i,
        lex_lt_from(a, b, i),
    ensures
        !lex_lt_from(b, a, i),
    decreases b.len() - i,
{
    if i < a.len() && i < b.len() && a[i] == b[i] {
        lemma_lex_from_asymmetric(a, b, i + 1);
    }
}

proof fn lemma_lex_from_transitive(a: Seq<char>, b: Seq<char>, c: Seq<char>, i: int)
    requires
        0 <= i,
        lex_lt_from(a, b, i),
        lex_lt_from(b, c, i),
    ensures
        lex_lt_from(a, c, i),
    decreases c.len() - i,
{
    if i < a.len() && i < b.len() && i < c.len() && a[i] == b[i] && b[i] == c[i] {
        lemma_lex_from_transitive(a, b, c, i + 1);
    }
}

/// No string comes before itself.
pub proof fn lemma_lex_irreflexive(a: Seq<char>)
    ensures
        !lex_lt(a, a),
{
    lemma_lex_from_irreflexive(a, 0);
}

/// Of two different strings one comes before the other, and never both.
pub proof fn lemma_lex_total(a: Seq<char>, b: Seq<char>)
    ensures
        a == b || lex_lt(a, b) || lex_lt(b, a),
        lex_lt(a, b) ==> !lex_lt(b, a) && a != b,
{
    if !lex_lt(a, b) && !lex_lt(b, a) {
        assert(a.take(0) =~= b.take(0));
        lemma_lex_from_total(a, b, 0);
    }
    if lex_lt(a, b) {
        lemma_lex_from_asymmetric(a, b, 0);
        lemma_lex_from_irreflexive(a, 0);
    }
}

/// The order is transitive.
pub proof fn lemma_lex_transitive(a: Seq<char>, b: Seq<char>, c: Seq<char>)
    requires
        lex_lt(a, b),
        lex_lt(b, c),
    ensures
        lex_lt(a, c),
{
    lemma_lex_from_transitive(a, b, c, 0);
}

/// Tells whether a text is among the given texts.
pub fn contains_text(ids: &Vec<String>, id: &str) -> (r: bool)
    ensures
        r == views(ids@).to_set().contains(id@),
{
    let ghost all = views(ids@);
    let mut i: usize = 0;
    while i < ids.len()
        invariant
            i <= ids.len(),
            all == views(ids@),
            forall|k: int| 0 <= k < i ==> all[k] != id@,
        decreases ids.len() - i,
    {
        if *ids[i].as_str() == *id {
            assert(all[i as int] == id@);
            return true;
        }
        i += 1;
    }
    false
}

/// Tells when a status report is due.
#[derive(Debug)]
pub struct ReportTimer {
    /// The time, counted from the start in milliseconds, that must have
    /// passed before the next report.
    pub wait_ms: u64,
}

/// The wait after a report: longer by the time between two reports, as far
/// as numbers go.
pub open spec fn longer_wait(wait_ms: u64) -> u64 {
    if wait_ms + TIME_BETWEEN_STATUS_REPORTS_MS <= u64::MAX {
        (wait_ms + TIME_BETWEEN_STATUS_REPORTS_MS) as u64
    } else {
        u64::MAX
    }
}

/// Whether a report is due: more time than the wait has passed, and there
/// is something to report.
pub open spec fn report_due(wait_ms: u64, elapsed_ms: u64, rows: usize) -> bool {
    elapsed_ms > wait_ms && rows != 0
}

impl ReportTimer {
    /// A timer whose first report waits for the given time.
    pub fn new(wait_ms: u64) -> (r: Self)
        ensures
            r.wait_ms == wait_ms,
    {
        ReportTimer { wait_ms }
    }

    /// Tells whether a report is due after `elapsed_ms` milliseconds with
    /// `rows` rows done. After a report that is due the next one waits
    /// longer.
    pub fn maybe_time_report(&mut self, elapsed_ms: u64, rows: usize) -> (due: bool)
        ensures
            due == report_due(old(self).wait_ms, elapsed_ms, rows),
            final(self).wait_ms == if due {
                longer_wait(old(self).wait_ms)
            } else {
                old(self).wait_ms
            },
    {
        if elapsed_ms > self.wait_ms && rows != 0 {
            self.wait_ms = if self.wait_ms <= u64::MAX - TIME_BETWEEN_STATUS_REPORTS_MS {
                self.wait_ms + TIME_BETWEEN_STATUS_REPORTS_MS
            } else {
                u64::MAX
            };
            true
        } else {
            false
        }
    }
}

/// An iterator over the elements of a document that holds a JSON array.
///
/// Each call of [`next`](Self::next) decodes one element and reads no
/// further. A clone starts again at the beginning of the document.
#[derive(Debug)]
pub struct CloneableJsonArrayStreamIterator {
    source: Vec<u8>,
    pos: usize,
    started: bool,
    finished: bool,
}

impl CloneableJsonArrayStreamIterator {
    /// Whether the position is within the document.
    pub closed spec fn wf(&self) -> bool {
        self.pos <= self.source@.len()
    }

    /// The bytes of the document.
    pub closed spec fn source(&self) -> Seq<u8> {
        self.source@
    }

    /// How far the document has been read.
    pub closed spec fn position(&self) -> int {
        self.pos as int
    }

    /// Whether the beginning of the array has been read.
    pub closed spec fn started(&self) -> bool {
        self.started
    }

    /// Whether the end of the array, or a failure, has been met.
    pub closed spec fn finished(&self) -> bool {
        self.finished
    }

    /// The position is within the document.
    pub proof fn lemma_position_bounds(&self)
        requires
            self.wf(),
        ensures
            0 <= self.position() <= self.source().len(),
    {
    }

    /// An iterator at the beginning of the document.
    pub fn new(source: Vec<u8>) -> (r: Self)
        ensures
            r.wf(),
            r.source() == source@,
            r.position() == 0,
            !r.started(),
            !r.finished(),
    {
        CloneableJsonArrayStreamIterator { source, pos: 0, started: false, finished: false }
    }

    /// Decodes the next element. After the last element, and after a
    /// failure, there is nothing more.
    pub fn next(&mut self) -> (r: Option<Result<Element, StreamError>>)
        requires
            old(self).wf(),
        ensures
            final(self).wf(),
            final(self).source() == old(self).source(),
            final(self).started() || final(self).finished(),
            old(self).finished() ==> r is None && final(self).finished() && final(self).position()
                == old(self).position(),
            !old(self).finished() ==> match step(
                old(self).source(),
                old(self).position(),
                old(self).started(),
            ) {
                StepView::Item(element, next) => r is Some && r->0 is Ok && r->0->Ok_0@ == element
                    && final(self).position() == next && !final(self).finished()
                    && crate::import::element_wf(element),
                StepView::End(next) => {
                    &&& r is None
                    &&& final(self).position() == next
                    &&& final(self).finished()
                },
                StepView::Fail(e) => {
                    &&& r == Some(Err::<Element, StreamError>(e))
                    &&& final(self).position() == old(self).position()
                    &&& final(self).finished()
                },
            },
    {
        if self.finished {
            return None;
        }
        let mut pos = self.pos;
        let mut started = self.started;
        let outcome = yield_next_obj(self.source.as_slice(), &mut pos, &mut started);
        self.pos = pos;
        self.started = started;
        match outcome {
            Ok(Some(element)) => Some(Ok(element)),
            Ok(None) => {
                self.finished = true;
                None
            },
            Err(e) => {
                self.finished = true;
                Some(Err(e))
            },
        }
    }
}

impl Clone for CloneableJsonArrayStreamIterator {
    /// A fresh iterator over the same document.
    fn clone(&self) -> (r: Self)
        ensures
            r.wf(),
            r.source() == self.source(),
            r.position() == 0,
            !r.started(),
            !r.finished(),
    {
        let source = self.source.clone();
        assert(source@ =~= self.source@);
        CloneableJsonArrayStreamIterator { source, pos: 0, started: false, finished: false }
    }
}

} // verus!
