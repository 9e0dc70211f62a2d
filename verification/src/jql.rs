//! The JQL (Jira Query Language) core: an abstract syntax tree for search
//! queries and its deterministic rendering to the textual JQL grammar.
//!
//! Every renderable node carries a spec-level model of its textual form
//! (`escaped_text_literal`, `clause_jql`, ...), and the executable
//! serializers are proved to produce exactly that text.

use vstd::prelude::*;
use vstd::string::StrSliceExecFns;
use vstd::string::StringExecFns;

verus! {

/// The characters that JQL reserves as operators or grammar punctuation.
///
/// Inside a quoted text literal each of these must be escaped, or the server
/// rejects the query or reads it as structure rather than text.
pub open spec fn is_reserved_char(c: char) -> bool {
    c == '+' || c == '-' || c == '&' || c == '|' || c == '!' || c == '(' || c == ')' || c == '{'
        || c == '}' || c == '[' || c == ']' || c == '^' || c == '~' || c == '*' || c == '?'
        || c == '\\' || c == ':'
}

/// How a single character of a raw text value is rendered inside a quoted
/// JQL text literal: a quote gains one backslash, a reserved character gains
/// two, and everything else passes through unchanged.
pub open spec fn escaped_char(c: char) -> Seq<char> {
    if c == '"' {
        seq!['\\', c]
    } else if is_reserved_char(c) {
        seq!['\\', '\\', c]
    } else {
        seq![c]
    }
}

/// The body of a quoted JQL text literal: each input character rendered by
/// `escaped_char`, in input order.
pub open spec fn escaped_text(s: Seq<char>) -> Seq<char>
    decreases s.len(),
{
    if s.len() == 0 {
        Seq::empty()
    } else {
        escaped_char(s.first()) + escaped_text(s.drop_first())
    }
}

/// The full rendering of a raw text value: the escaped body wrapped in one
/// leading and one trailing double quote.
pub open spec fn escaped_text_literal(s: Seq<char>) -> Seq<char> {
    seq!['"'] + escaped_text(s) + seq!['"']
}

/// `escaped_text` distributes over concatenation.
proof fn lemma_escaped_text_concat(a: Seq<char>, b: Seq<char>)
    ensures
        escaped_text(a + b) == escaped_text(a) + escaped_text(b),
    decreases a.len(),
{
    if a.len() == 0 {
        assert(a + b =~= b);
        assert(escaped_text(a) + escaped_text(b) =~= escaped_text(b));
    } else {
        lemma_escaped_text_concat(a.drop_first(), b);
        assert((a + b).drop_first() =~= a.drop_first() + b);
        assert(escaped_char(a.first()) + (escaped_text(a.drop_first()) + escaped_text(b))
            =~= (escaped_char(a.first()) + escaped_text(a.drop_first())) + escaped_text(b));
    }
}

/// Extending the input by one character appends that character's rendering.
proof fn lemma_escaped_text_push(s: Seq<char>, c: char)
    ensures
        escaped_text(s.push(c)) == escaped_text(s) + escaped_char(c),
{
    assert(s.push(c) =~= s + seq![c]);
    lemma_escaped_text_concat(s, seq![c]);
    assert(seq![c].len() == 1 && seq![c].first() == c);
    assert(seq![c].drop_first() =~= Seq::<char>::empty());
    assert(escaped_text(Seq::<char>::empty()) =~= Seq::<char>::empty());
    assert(escaped_text(seq![c]) == escaped_char(c) + escaped_text(seq![c].drop_first()));
    assert(escaped_char(c) + Seq::<char>::empty() =~= escaped_char(c));
}

/// Where a character's rendering begins inside the escaped body: the length
/// of everything rendered before it.
pub open spec fn escape_offset(s: Seq<char>, i: int) -> int {
    escaped_text(s.take(i)).len() as int
}

/// The shape of every escaped text literal: it is the escaped body wrapped
/// in exactly one leading and one trailing double quote, and inside that
/// body each input character stands at its offset rendered with the
/// documented escape prefix — one backslash before a literal quote, two
/// backslashes before a reserved character, and nothing before any other
/// character (see `escaped_char`).
pub proof fn lemma_escaped_text_literal_form(s: Seq<char>)
    ensures
        escaped_text_literal(s) == seq!['"'] + escaped_text(s) + seq!['"'],
        escaped_text_literal(s).len() >= 2,
        escaped_text_literal(s).first() == '"',
        escaped_text_literal(s).last() == '"',
        forall|i: int|
            0 <= i < s.len() ==> escaped_text(s).subrange(
                #[trigger] escape_offset(s, i),
                escape_offset(s, i) + escaped_char(s[i]).len(),
            ) == escaped_char(s[i]),
{
    assert(escaped_text_literal(s).first() == '"');
    assert(escaped_text_literal(s).last() == '"');
    assert forall|i: int| 0 <= i < s.len() implies escaped_text(s).subrange(
        #[trigger] escape_offset(s, i),
        escape_offset(s, i) + escaped_char(s[i]).len(),
    ) == escaped_char(s[i]) by {
        assert(s.take(i + 1) + s.skip(i + 1) =~= s);
        lemma_escaped_text_concat(s.take(i + 1), s.skip(i + 1));
        assert(s.take(i + 1) =~= s.take(i).push(s[i]));
        lemma_escaped_text_push(s.take(i), s[i]);
        assert(escaped_text(s) == escaped_text(s.take(i)) + escaped_char(s[i]) + escaped_text(
            s.skip(i + 1),
        ));
        assert(escaped_text(s).subrange(
            escape_offset(s, i),
            escape_offset(s, i) + escaped_char(s[i]).len(),
        ) =~= escaped_char(s[i]));
    }
}

/// Escapes a raw text value for use in a JQL query, quoting it and escaping
/// every reserved character, so that untrusted text cannot inject query
/// structure.
pub fn escape_text_field(s: &str) -> (r: String)
    ensures
        r@ == escaped_text_literal(s@),
{
    let n = s.unicode_len();
    let mut out = String::new();
    push_char(&mut out, '"');
    let mut i: usize = 0;
    while i < n
        invariant
            n == s@.len(),
            i <= n,
            out@ == seq!['"'] + escaped_text(s@.take(i as int)),
        decreases n - i,
    {
        let c = s.get_char(i);
        match c {
            '"' => {
                push_char(&mut out, '\\');
            },
            '+' | '-' | '&' | '|' | '!' | '(' | ')' | '{' | '}' | '[' | ']' | '^' | '~' | '*'
                | '?' | '\\' | ':' => {
                push_char(&mut out, '\\');
                push_char(&mut out, '\\');
            },
            _ => {},
        }
        push_char(&mut out, c);
        proof {
            lemma_escaped_text_push(s@.take(i as int), c);
            assert(s@.take(i + 1 as int) =~= s@.take(i as int).push(s@[i as int]));
        }
        i = i + 1;
    }
    push_char(&mut out, '"');
    proof {
        assert(s@.take(n as int) =~= s@);
        assert(out@ =~= escaped_text_literal(s@));
    }
    out
}

/// Relies on `String::push`: appends the given character to the end of the
/// string.
#[verifier::external_body]
fn push_char(s: &mut String, c: char)
    ensures
        final(s)@ == old(s)@.push(c),
{
    s.push(c);
}

/// Represents an object that has a string representation in JQL, either as a
/// standalone query or as part of a query.
///
/// `jql` is the spec-level model of that representation; `serialize_to_jql`
/// produces exactly it.
pub trait SerializableToJQL {
    spec fn jql(&self) -> Seq<char>;

    fn serialize_to_jql(&self) -> (r: String)
        ensures
            r@ == self.jql(),
    ;
}

/// The single kind of error the query core can raise: a structurally invalid
/// payload handed to a literal constructor. It is reported when the literal
/// is built, never during serialization.
#[derive(Clone, Copy, Debug, PartialEq, Eq, Structural)]
pub enum ValidationError {
    InvalidDate,
}

impl ValidationError {
    /// A human-readable description of the error.
    pub fn message(&self) -> (r: String)
        ensures
            r@ == "invalid calendar date"@,
    {
        "invalid calendar date".to_owned()
    }
}

/// Whether `year` is a leap year in the proleptic Gregorian calendar.
pub open spec fn is_leap_year(year: int) -> bool {
    year % 4 == 0 && (year % 100 != 0 || year % 400 == 0)
}

/// The number of days in the given month of the given year.
pub open spec fn days_in_month(year: int, month: int) -> int {
    if month == 2 {
        if is_leap_year(year) {
            29
        } else {
            28
        }
    } else if month == 4 || month == 6 || month == 9 || month == 11 {
        30
    } else {
        31
    }
}

/// Whether year, month and day name a real calendar date that fits the
/// four-digit year form JQL dates are written in.
pub open spec fn is_valid_date(year: int, month: int, day: int) -> bool {
    &&& 0 <= year <= 9999
    &&& 1 <= month <= 12
    &&& 1 <= day <= days_in_month(year, month)
}

/// The decimal digit character for `n`, which must lie in `0 ..= 9`.
pub open spec fn decimal_digit(n: int) -> char {
    if n == 0 {
        '0'
    } else if n == 1 {
        '1'
    } else if n == 2 {
        '2'
    } else if n == 3 {
        '3'
    } else if n == 4 {
        '4'
    } else if n == 5 {
        '5'
    } else if n == 6 {
        '6'
    } else if n == 7 {
        '7'
    } else if n == 8 {
        '8'
    } else {
        '9'
    }
}

/// A calendar date as JQL understands it: a validated year, month and day.
///
/// A value can only be built through [`JQLDate::new`], which rejects
/// anything that is not a real date, so a date needs no escaping when it is
/// rendered into a query.
#[derive(Clone, Copy, Debug, PartialEq, Eq, Structural)]
pub struct JQLDate {
    year: u16,
    month: u8,
    day: u8,
}

/// The rendering of a date in a JQL query: `"YYYY-MM-DD"`, zero padded,
/// wrapped in double quotes.
pub open spec fn date_jql(d: JQLDate) -> Seq<char> {
    seq![
        '"',
        decimal_digit(d.spec_year() / 1000 % 10),
        decimal_digit(d.spec_year() / 100 % 10),
        decimal_digit(d.spec_year() / 10 % 10),
        decimal_digit(d.spec_year() % 10),
        '-',
        decimal_digit(d.spec_month() / 10 % 10),
        decimal_digit(d.spec_month() % 10),
        '-',
        decimal_digit(d.spec_day() / 10 % 10),
        decimal_digit(d.spec_day() % 10),
        '"',
    ]
}

impl JQLDate {
    /// The year this date lies in.
    pub closed spec fn spec_year(self) -> int {
        self.year as int
    }

    /// The month this date lies in, counted from 1.
    pub closed spec fn spec_month(self) -> int {
        self.month as int
    }

    /// The day of the month, counted from 1.
    pub closed spec fn spec_day(self) -> int {
        self.day as int
    }

    /// Builds a date from year, month and day, rejecting anything that is
    /// not a real calendar date of the four-digit-year era.
    pub fn new(year: u16, month: u8, day: u8) -> (r: Result<JQLDate, ValidationError>)
        ensures
            r is Ok <==> is_valid_date(year as int, month as int, day as int),
            r is Ok ==> r->Ok_0.spec_year() == year && r->Ok_0.spec_month() == month
                && r->Ok_0.spec_day() == day,
            r is Err ==> r->Err_0 == ValidationError::InvalidDate,
    {
        let leap = year % 4 == 0 && (year % 100 != 0 || year % 400 == 0);
        let max_day: u8 = if month == 2 {
            if leap {
                29
            } else {
                28
            }
        } else if month == 4 || month == 6 || month == 9 || month == 11 {
            30
        } else {
            31
        };
        if year <= 9999 && 1 <= month && month <= 12 && 1 <= day && day <= max_day {
            Ok(JQLDate { year, month, day })
        } else {
            Err(ValidationError::InvalidDate)
        }
    }

    /// The year this date lies in.
    pub fn year(&self) -> (r: u16)
        ensures
            r as int == self.spec_year(),
    {
        self.year
    }

    /// The month this date lies in, counted from 1.
    pub fn month(&self) -> (r: u8)
        ensures
            r as int == self.spec_month(),
    {
        self.month
    }

    /// The day of the month, counted from 1.
    pub fn day(&self) -> (r: u8)
        ensures
            r as int == self.spec_day(),
    {
        self.day
    }
}

/// The decimal digit character for `n`.
fn digit_char(n: u16) -> (c: char)
    requires
        n < 10,
    ensures
        c == decimal_digit(n as int),
{
    if n == 0 {
        '0'
    } else if n == 1 {
        '1'
    } else if n == 2 {
        '2'
    } else if n == 3 {
        '3'
    } else if n == 4 {
        '4'
    } else if n == 5 {
        '5'
    } else if n == 6 {
        '6'
    } else if n == 7 {
        '7'
    } else if n == 8 {
        '8'
    } else {
        '9'
    }
}

impl SerializableToJQL for JQLDate {
    open spec fn jql(&self) -> Seq<char> {
        date_jql(*self)
    }

    fn serialize_to_jql(&self) -> (r: String) {
        let mut out = String::new();
        push_char(&mut out, '"');
        push_char(&mut out, digit_char(self.year / 1000 % 10));
        push_char(&mut out, digit_char(self.year / 100 % 10));
        push_char(&mut out, digit_char(self.year / 10 % 10));
        push_char(&mut out, digit_char(self.year % 10));
        push_char(&mut out, '-');
        push_char(&mut out, digit_char((self.month / 10 % 10) as u16));
        push_char(&mut out, digit_char((self.month % 10) as u16));
        push_char(&mut out, '-');
        push_char(&mut out, digit_char((self.day / 10 % 10) as u16));
        push_char(&mut out, digit_char((self.day % 10) as u16));
        push_char(&mut out, '"');
        proof {
            assert(out@ =~= date_jql(*self));
        }
        out
    }
}

/// Represents a value in JQL: the payload of a comparison or membership
/// clause.
#[derive(Debug)]
pub enum JQLValue {
    Text(String),
    Date(JQLDate),
}

/// The rendering of a value in a JQL query: text is escaped and quoted,
/// dates are written as quoted `YYYY-MM-DD`.
pub open spec fn value_jql(v: JQLValue) -> Seq<char> {
    match v {
        JQLValue::Text(s) => escaped_text_literal(s@),
        JQLValue::Date(d) => date_jql(d),
    }
}

impl SerializableToJQL for JQLValue {
    open spec fn jql(&self) -> Seq<char> {
        value_jql(*self)
    }

    fn serialize_to_jql(&self) -> (r: String) {
        match self {
            JQLValue::Text(s) => escape_text_field(s.as_str()),
            JQLValue::Date(d) => d.serialize_to_jql(),
        }
    }
}

impl Clone for JQLValue {
    /// A copy is indistinguishable from the original.
    fn clone(&self) -> (r: Self)
        ensures
            r == *self,
    {
        match self {
            JQLValue::Text(s) => JQLValue::Text(s.clone()),
            JQLValue::Date(d) => JQLValue::Date(*d),
        }
    }
}

/// Represents a clause in JQL: a comparison, a membership test, or a
/// conjunction of sub-clauses. A clause is a strictly owning tree, built
/// bottom-up and never mutated afterwards.
#[derive(Debug)]
pub enum JQLClause {
    And(Vec<Box<JQLClause>>),
    Equals(String, JQLValue),
    GreaterThanEquals(String, JQLValue),
    In(String, Vec<JQLValue>),
    LessThanEquals(String, JQLValue),
}

/// The rendering of a clause in a JQL query. Field names are emitted
/// verbatim: they are schema identifiers from a known-safe set, not
/// user-supplied free text.
pub open spec fn clause_jql(c: JQLClause) -> Seq<char>
    decreases c,
{
    match c {
        JQLClause::And(cs) => seq!['('] + and_list_jql(cs@) + seq![')'],
        JQLClause::Equals(f, v) => f@ + " = "@ + value_jql(v),
        JQLClause::GreaterThanEquals(f, v) => f@ + " >= "@ + value_jql(v),
        JQLClause::In(f, vs) => f@ + " IN ("@ + in_list_jql(vs@) + seq![')'],
        JQLClause::LessThanEquals(f, v) => f@ + " <= "@ + value_jql(v),
    }
}

/// The body of a conjunction: the sub-clauses' renderings joined by
/// ` AND `. An empty conjunction has an empty body.
pub open spec fn and_list_jql(cs: Seq<Box<JQLClause>>) -> Seq<char>
    decreases cs,
{
    if cs.len() == 0 {
        Seq::empty()
    } else if cs.len() == 1 {
        clause_jql(*cs.last())
    } else {
        and_list_jql(cs.drop_last()) + " AND "@ + clause_jql(*cs.last())
    }
}

/// The body of a membership list: the values' renderings joined by `, `.
/// An empty list has an empty body.
pub open spec fn in_list_jql(vs: Seq<JQLValue>) -> Seq<char>
    decreases vs.len(),
{
    if vs.len() == 0 {
        Seq::empty()
    } else if vs.len() == 1 {
        value_jql(vs.last())
    } else {
        in_list_jql(vs.drop_last()) + ", "@ + value_jql(vs.last())
    }
}

impl JQLClause {
    /// Renders this clause; sub-clauses are rendered recursively, so the
    /// call stack is as deep as the tree the caller built.
    fn render_jql(&self) -> (r: String)
        ensures
            r@ == clause_jql(*self),
        decreases *self,
    {
        match self {
            JQLClause::And(cs) => {
                let mut out = String::new();
                push_char(&mut out, '(');
                let mut i: usize = 0;
                while i < cs.len()
                    invariant
                        i <= cs@.len(),
                        out@ == seq!['('] + and_list_jql(cs@.take(i as int)),
                        *self == JQLClause::And(*cs),
                    decreases cs@.len() - i,
                {
                    if i > 0 {
                        out.append(" AND ");
                    }
                    proof {
                        broadcast use vstd::std_specs::vec::group_vec_axioms;

                        assert(decreases_to!(*self => self->And_0));
                        assert(self->And_0 == *cs);
                        assert(decreases_to!(*cs => cs@));
                        assert(decreases_to!(cs@ => cs@[i as int]));
                        assert(decreases_to!(*self => cs@[i as int]));
                    }
                    let piece = cs[i].render_jql();
                    out.append(piece.as_str());
                    proof {
                        let done = cs@.take(i + 1 as int);
                        assert(done.drop_last() =~= cs@.take(i as int));
                        assert(done.last() == cs@[i as int]);
                        assert(out@ =~= seq!['('] + and_list_jql(done));
                    }
                    i = i + 1;
                }
                push_char(&mut out, ')');
                proof {
                    assert(cs@.take(cs@.len() as int) =~= cs@);
                    assert(out@ =~= seq!['('] + and_list_jql(cs@) + seq![')']);
                }
                out
            },
            JQLClause::Equals(f, v) => {
                let mut out = f.clone();
                out.append(" = ");
                let piece = v.serialize_to_jql();
                out.append(piece.as_str());
                proof {
                    assert(out@ =~= f@ + " = "@ + value_jql(*v));
                }
                out
            },
            JQLClause::GreaterThanEquals(f, v) => {
                let mut out = f.clone();
                out.append(" >= ");
                let piece = v.serialize_to_jql();
                out.append(piece.as_str());
                proof {
                    assert(out@ =~= f@ + " >= "@ + value_jql(*v));
                }
                out
            },
            JQLClause::In(f, vs) => {
                let mut out = f.clone();
                out.append(" IN (");
                let mut i: usize = 0;
                while i < vs.len()
                    invariant
                        i <= vs@.len(),
                        out@ == f@ + " IN ("@ + in_list_jql(vs@.take(i as int)),
                    decreases vs@.len() - i,
                {
                    if i > 0 {
                        out.append(", ");
                    }
                    let piece = vs[i].serialize_to_jql();
                    out.append(piece.as_str());
                    proof {
                        let done = vs@.take(i + 1 as int);
                        assert(done.drop_last() =~= vs@.take(i as int));
                        assert(done.last() == vs@[i as int]);
                        assert(out@ =~= f@ + " IN ("@ + in_list_jql(done));
                    }
                    i = i + 1;
                }
                push_char(&mut out, ')');
                proof {
                    assert(vs@.take(vs@.len() as int) =~= vs@);
                    assert(out@ =~= f@ + " IN ("@ + in_list_jql(vs@) + seq![')']);
                }
                out
            },
            JQLClause::LessThanEquals(f, v) => {
                let mut out = f.clone();
                out.append(" <= ");
                let piece = v.serialize_to_jql();
                out.append(piece.as_str());
                proof {
                    assert(out@ =~= f@ + " <= "@ + value_jql(*v));
                }
                out
            },
        }
    }
}

impl SerializableToJQL for JQLClause {
    open spec fn jql(&self) -> Seq<char> {
        clause_jql(*self)
    }

    fn serialize_to_jql(&self) -> (r: String) {
        self.render_jql()
    }
}

/// Conjunction bodies only depend on how each sub-clause renders: two lists
/// whose members render alike render alike as a whole.
proof fn lemma_and_list_jql_congruence(a: Seq<Box<JQLClause>>, b: Seq<Box<JQLClause>>)
    requires
        a.len() == b.len(),
        forall|i: int| 0 <= i < a.len() ==> clause_jql(*a[i]) == clause_jql(*b[i]),
    ensures
        and_list_jql(a) == and_list_jql(b),
    decreases a.len(),
{
    if a.len() > 0 {
        lemma_and_list_jql_congruence(a.drop_last(), b.drop_last());
        assert(clause_jql(*a.last()) == clause_jql(*b.last()));
    }
}

impl Clone for JQLClause {
    /// A copy renders to exactly the same JQL text as the original.
    fn clone(&self) -> (r: Self)
        ensures
            clause_jql(r) == clause_jql(*self),
        decreases *self,
    {
        match self {
            JQLClause::And(cs) => {
                let mut cs2: Vec<Box<JQLClause>> = Vec::new();
                let mut i: usize = 0;
                while i < cs.len()
                    invariant
                        i <= cs@.len(),
                        cs2@.len() == i,
                        forall|j: int| 0 <= j < i ==> clause_jql(*cs2@[j]) == clause_jql(*cs@[j]),
                        *self == JQLClause::And(*cs),
                    decreases cs@.len() - i,
                {
                    proof {
                        broadcast use vstd::std_specs::vec::group_vec_axioms;

                        assert(decreases_to!(*self => self->And_0));
                        assert(self->And_0 == *cs);
                        assert(decreases_to!(*cs => cs@));
                        assert(decreases_to!(cs@ => cs@[i as int]));
                        assert(decreases_to!(*self => cs@[i as int]));
                    }
                    let sub: &JQLClause = &cs[i];
                    cs2.push(Box::new(sub.clone()));
                    i = i + 1;
                }
                proof {
                    lemma_and_list_jql_congruence(cs2@, cs@);
                }
                JQLClause::And(cs2)
            },
            JQLClause::Equals(f, v) => JQLClause::Equals(f.clone(), v.clone()),
            JQLClause::GreaterThanEquals(f, v) => JQLClause::GreaterThanEquals(
                f.clone(),
                v.clone(),
            ),
            JQLClause::In(f, vs) => {
                let mut vs2: Vec<JQLValue> = Vec::new();
                let mut i: usize = 0;
                while i < vs.len()
                    invariant
                        i <= vs@.len(),
                        vs2@ =~= vs@.take(i as int),
                    decreases vs@.len() - i,
                {
                    vs2.push(vs[i].clone());
                    i = i + 1;
                }
                proof {
                    assert(vs2@ =~= vs@);
                }
                JQLClause::In(f.clone(), vs2)
            },
            JQLClause::LessThanEquals(f, v) => JQLClause::LessThanEquals(f.clone(), v.clone()),
        }
    }
}

/// The direction a sort key orders results in.
#[derive(Clone, Copy, Debug)]
pub enum JQLOrdering {
    Asc,
    Desc,
}

/// The rendering of a sort direction: `ASC` or `DESC`.
pub open spec fn ordering_jql(o: JQLOrdering) -> Seq<char> {
    match o {
        JQLOrdering::Asc => "ASC"@,
        JQLOrdering::Desc => "DESC"@,
    }
}

impl SerializableToJQL for JQLOrdering {
    open spec fn jql(&self) -> Seq<char> {
        ordering_jql(*self)
    }

    fn serialize_to_jql(&self) -> (r: String) {
        match self {
            JQLOrdering::Asc => "ASC".to_owned(),
            JQLOrdering::Desc => "DESC".to_owned(),
        }
    }
}

/// One sort key of an `ORDER BY` directive: a field name and, optionally, a
/// direction. When the direction is absent the server applies its default.
#[derive(Debug)]
pub struct JQLOrderByPart {
    pub field: String,
    pub ordering: Option<JQLOrdering>,
}

/// The rendering of a sort key: the field name, followed by the direction
/// when one is given.
pub open spec fn order_by_part_jql(p: JQLOrderByPart) -> Seq<char> {
    match p.ordering {
        Some(o) => p.field@ + " "@ + ordering_jql(o),
        None => p.field@,
    }
}

impl SerializableToJQL for JQLOrderByPart {
    open spec fn jql(&self) -> Seq<char> {
        order_by_part_jql(*self)
    }

    fn serialize_to_jql(&self) -> (r: String) {
        match &self.ordering {
            Some(o) => {
                let mut out = self.field.clone();
                out.append(" ");
                let piece = o.serialize_to_jql();
                out.append(piece.as_str());
                proof {
                    assert(out@ =~= order_by_part_jql(*self));
                }
                out
            },
            None => self.field.clone(),
        }
    }
}

impl Clone for JQLOrderByPart {
    /// A copy is indistinguishable from the original.
    fn clone(&self) -> (r: Self)
        ensures
            r == *self,
    {
        JQLOrderByPart { field: self.field.clone(), ordering: self.ordering }
    }
}

/// An `ORDER BY` directive: sort keys in tie-break order. The sequence
/// order is semantically significant and is preserved through construction,
/// copying and serialization.
#[derive(Debug)]
pub struct JQLOrderBy(pub Vec<JQLOrderByPart>);

/// The body of an `ORDER BY` directive: the sort keys' renderings joined by
/// `, `, in input order.
pub open spec fn order_by_list_jql(ps: Seq<JQLOrderByPart>) -> Seq<char>
    decreases ps.len(),
{
    if ps.len() == 0 {
        Seq::empty()
    } else if ps.len() == 1 {
        order_by_part_jql(ps.last())
    } else {
        order_by_list_jql(ps.drop_last()) + ", "@ + order_by_part_jql(ps.last())
    }
}

/// The rendering of an `ORDER BY` directive, keyword included.
pub open spec fn order_by_jql(ob: JQLOrderBy) -> Seq<char> {
    "ORDER BY "@ + order_by_list_jql(ob.0@)
}

impl SerializableToJQL for JQLOrderBy {
    open spec fn jql(&self) -> Seq<char> {
        order_by_jql(*self)
    }

    fn serialize_to_jql(&self) -> (r: String) {
        let mut out = "ORDER BY ".to_owned();
        let mut i: usize = 0;
        while i < self.0.len()
            invariant
                i <= self.0@.len(),
                out@ == "ORDER BY "@ + order_by_list_jql(self.0@.take(i as int)),
            decreases self.0@.len() - i,
        {
            if i > 0 {
                out.append(", ");
            }
            let piece = self.0[i].serialize_to_jql();
            out.append(piece.as_str());
            proof {
                let done = self.0@.take(i + 1 as int);
                assert(done.drop_last() =~= self.0@.take(i as int));
                assert(done.last() == self.0@[i as int]);
                assert(out@ =~= "ORDER BY "@ + order_by_list_jql(done));
            }
            i = i + 1;
        }
        proof {
            assert(self.0@.take(self.0@.len() as int) =~= self.0@);
        }
        out
    }
}

impl Clone for JQLOrderBy {
    /// A copy holds exactly the original's sort keys, in the same order.
    fn clone(&self) -> (r: Self)
        ensures
            r.0@ == self.0@,
    {
        let mut parts: Vec<JQLOrderByPart> = Vec::new();
        let mut i: usize = 0;
        while i < self.0.len()
            invariant
                i <= self.0@.len(),
                parts@ =~= self.0@.take(i as int),
            decreases self.0@.len() - i,
        {
            parts.push(self.0[i].clone());
            i = i + 1;
        }
        proof {
            assert(parts@ =~= self.0@);
        }
        JQLOrderBy(parts)
    }
}

/// Represents a statement in JQL: the unit that is serialized and handed to
/// the search endpoint. It pairs one clause with an optional `ORDER BY`
/// directive. A statement is immutable once built; serialization is a pure
/// projection to text and may be repeated any number of times.
#[derive(Debug)]
pub struct JQLStatement {
    pub clause: JQLClause,
    pub order_by: Option<JQLOrderBy>,
}

/// The rendering of a statement: the clause, then — only when an `ORDER BY`
/// directive is present and has at least one sort key — a single space and
/// the directive. An empty directive renders exactly like an absent one.
pub open spec fn statement_jql(st: JQLStatement) -> Seq<char> {
    match st.order_by {
        Some(ob) => {
            if ob.0@.len() == 0 {
                clause_jql(st.clause)
            } else {
                clause_jql(st.clause) + " "@ + order_by_jql(ob)
            }
        },
        None => clause_jql(st.clause),
    }
}

impl SerializableToJQL for JQLStatement {
    open spec fn jql(&self) -> Seq<char> {
        statement_jql(*self)
    }

    fn serialize_to_jql(&self) -> (r: String) {
        match &self.order_by {
            Some(ob) => {
                if ob.0.len() == 0 {
                    self.clause.serialize_to_jql()
                } else {
                    let mut out = self.clause.serialize_to_jql();
                    out.append(" ");
                    let piece = ob.serialize_to_jql();
                    out.append(piece.as_str());
                    proof {
                        assert(out@ =~= statement_jql(*self));
                    }
                    out
                }
            },
            None => self.clause.serialize_to_jql(),
        }
    }
}

impl Clone for JQLStatement {
    /// A copy renders to exactly the same JQL text as the original.
    fn clone(&self) -> (r: Self)
        ensures
            statement_jql(r) == statement_jql(*self),
    {
        let order_by = match &self.order_by {
            Some(ob) => Some(ob.clone()),
            None => None,
        };
        JQLStatement { clause: self.clause.clone(), order_by }
    }
}

} // verus!
