//! Queries of the event subscription system: an optional event type and a
//! list of conditions, joined by `AND`, with one canonical spelling.

use crate::date::{date_text, date_time_text, CivilDate, CivilDateTime, Date, DateTime};
use crate::error::{Code, Error};
use crate::literal::FloatLiteral;
use crate::text::{decimal, join, join_text, push_decimal, push_signed_decimal, signed_decimal, views};
use vstd::prelude::*;
use vstd::std_specs::convert::FromSpecImpl;
use vstd::string::StringExecFns;

verus! {

/// The kinds of event that a query can ask for.
#[derive(Debug, Clone, Copy, PartialEq, Eq, Structural)]
pub enum EventType {
    NewBlock,
    Tx,
}

/// The name of an event type on the wire.
pub open spec fn event_type_name(t: EventType) -> Seq<char> {
    match t {
        EventType::NewBlock => "NewBlock"@,
        EventType::Tx => "Tx"@,
    }
}

/// The event type that a name spells, if any.
pub open spec fn parse_event_type(s: Seq<char>) -> Option<EventType> {
    if s == "NewBlock"@ {
        Some(EventType::NewBlock)
    } else if s == "Tx"@ {
        Some(EventType::Tx)
    } else {
        None
    }
}

/// The message of the error for a name that spells no event type.
pub open spec fn unrecognized_event_type(s: Seq<char>) -> Seq<char> {
    "unrecognized event type: "@ + s
}

impl EventType {
    /// The name of this event type on the wire.
    pub fn name(&self) -> (r: &'static str)
        ensures
            r@ == event_type_name(*self),
    {
        match self {
            EventType::NewBlock => "NewBlock",
            EventType::Tx => "Tx",
        }
    }

    /// The name of this event type on the wire, as an owned string.
    pub fn to_string(&self) -> (r: String)
        ensures
            r@ == event_type_name(*self),
    {
        String::from_str(self.name())
    }

    /// Reads an event type from exactly `NewBlock` or `Tx`. Any other text
    /// is refused with `InvalidParams`, and the message ends in that text.
    pub fn from_str(s: &str) -> (r: Result<EventType, Error>)
        ensures
            match parse_event_type(s@) {
                Some(t) => r == Ok::<EventType, Error>(t),
                None => r is Err && r->Err_0.spec_code() == Code::InvalidParams
                    && r->Err_0.spec_message() == unrecognized_event_type(s@),
            },
    {
        let owned = s.to_owned();
        if owned == "NewBlock".to_owned() {
            Ok(EventType::NewBlock)
        } else if owned == "Tx".to_owned() {
            Ok(EventType::Tx)
        } else {
            let mut message = String::from_str("unrecognized event type: ");
            message.append(s);
            Err(Error::invalid_params(message.as_str()))
        }
    }
}

impl std::str::FromStr for EventType {
    type Err = Error;

    /// As the method `from_str` of the type itself.
    fn from_str(s: &str) -> (r: Result<EventType, Error>)
        ensures
            match parse_event_type(s@) {
                Some(t) => r == Ok::<EventType, Error>(t),
                None => r is Err && r->Err_0.spec_code() == Code::InvalidParams
                    && r->Err_0.spec_message() == unrecognized_event_type(s@),
            },
    {
        EventType::from_str(s)
    }
}

/// Every event type is read back from its own name.
pub proof fn event_type_name_round_trip(t: EventType)
    ensures
        parse_event_type(event_type_name(t)) == Some(t),
{
    reveal_strlit("NewBlock");
    reveal_strlit("Tx");
    assert("NewBlock"@.len() != "Tx"@.len());
}

/// A text that reads as an event type is that event type's name.
pub proof fn parsed_event_type_has_that_name(s: Seq<char>)
    requires
        parse_event_type(s) is Some,
    ensures
        event_type_name(parse_event_type(s)->Some_0) == s,
{
}

/// What escaping makes of one character: a backslash goes before a
/// backslash and before a single quote.
pub open spec fn escape_char(c: char) -> Seq<char> {
    if c == '\\' || c == '\'' {
        seq!['\\', c]
    } else {
        seq![c]
    }
}

/// The characters of `s`, each escaped, in order.
pub open spec fn escape_body(s: Seq<char>) -> Seq<char>
    decreases s.len(),
{
    if s.len() == 0 {
        Seq::empty()
    } else {
        escape_body(s.drop_last()) + escape_char(s.last())
    }
}

/// The string literal of `s`: its escaped characters between single quotes.
pub open spec fn escape_text(s: Seq<char>) -> Seq<char> {
    seq!['\''] + escape_body(s) + seq!['\'']
}

/// Escapes backslashes and single quotes in `s` with a backslash, and puts
/// the result between single quotes.
pub fn escape(s: &str) -> (r: String)
    ensures
        r@ == escape_text(s@),
{
    let mut result = String::new();
    result.push('\'');
    for ch in it: s.chars()
        invariant
            it.seq() == s@,
            result@ == seq!['\''] + escape_body(s@.take(it.index() as int)),
    {
        proof {
            let i = it.index() as int;
            assert(s@.take(i + 1).drop_last() =~= s@.take(i));
            assert(s@.take(i + 1).last() == ch);
        }
        if ch == '\\' || ch == '\'' {
            result.push('\\');
        }
        result.push(ch);
        assert(result@ =~= seq!['\''] + escape_body(s@.take(it.index() as int + 1)));
    }
    proof {
        assert(s@.take(s@.len() as int) =~= s@);
    }
    result.push('\'');
    assert(result@ =~= escape_text(s@));
    result
}

/// Different texts have different escaped forms.
pub proof fn escape_body_is_injective(a: Seq<char>, b: Seq<char>)
    requires
        escape_body(a) == escape_body(b),
    ensures
        a == b,
    decreases a.len(),
{
    if a.len() == 0 {
        if b.len() > 0 {
            assert(escape_char(b.last()).len() > 0);
        }
        assert(a =~= b);
    } else if b.len() == 0 {
        assert(escape_char(a.last()).len() > 0);
    } else {
        let whole = escape_body(a);
        let end_a = escape_char(a.last());
        let end_b = escape_char(b.last());
        let front_a = escape_body(a.drop_last());
        let front_b = escape_body(b.drop_last());
        assert(whole == front_a + end_a);
        assert(whole == front_b + end_b);
        assert(end_a.last() == a.last());
        assert(end_b.last() == b.last());
        assert(whole.last() == end_a.last());
        assert(whole.last() == end_b.last());
        assert(end_a == end_b);
        assert(front_a =~= whole.take(whole.len() - end_a.len()));
        assert(front_b =~= whole.take(whole.len() - end_b.len()));
        escape_body_is_injective(a.drop_last(), b.drop_last());
        assert(a =~= a.drop_last().push(a.last()));
        assert(b =~= b.drop_last().push(b.last()));
    }
}

/// Different texts have different string literals.
pub proof fn escape_is_injective(a: Seq<char>, b: Seq<char>)
    requires
        escape_text(a) == escape_text(b),
    ensures
        a == b,
{
    let quote = seq!['\''];
    let la = escape_text(a);
    let lb = escape_text(b);
    assert(escape_body(a) =~= la.subrange(1, la.len() - 1));
    assert(escape_body(b) =~= lb.subrange(1, lb.len() - 1));
    escape_body_is_injective(a, b);
}

/// Escaping leaves no single quote bare: in the escaped form of a text
/// every single quote comes right after a backslash.
pub proof fn escaped_quotes_follow_a_backslash(s: Seq<char>, i: int)
    requires
        0 <= i < escape_body(s).len(),
        escape_body(s)[i] == '\'',
    ensures
        i > 0,
        escape_body(s)[i - 1] == '\\',
    decreases s.len(),
{
    if s.len() > 0 {
        let front = escape_body(s.drop_last());
        let end = escape_char(s.last());
        assert(escape_body(s) == front + end);
        if i < front.len() {
            assert(escape_body(s)[i] == front[i]);
            escaped_quotes_follow_a_backslash(s.drop_last(), i);
            assert(escape_body(s)[i - 1] == front[i - 1]);
        } else {
            assert(escape_body(s)[i] == end[i - front.len()]);
            if i > front.len() {
                assert(escape_body(s)[i - 1] == end[i - 1 - front.len()]);
            }
        }
    }
}

/// An operand of a condition, as plain values.
pub enum OperandView {
    String(Seq<char>),
    Signed(int),
    Unsigned(nat),
    Float(Seq<char>),
    Date(CivilDate),
    DateTime(CivilDateTime),
}

/// A condition, as plain values.
pub enum ConditionView {
    Eq(Seq<char>, OperandView),
    Lt(Seq<char>, OperandView),
    Lte(Seq<char>, OperandView),
    Gt(Seq<char>, OperandView),
    Gte(Seq<char>, OperandView),
    Contains(Seq<char>, Seq<char>),
    Exists(Seq<char>),
}

/// A query, as plain values.
pub struct QueryView {
    pub event_type: Option<EventType>,
    pub conditions: Seq<ConditionView>,
}

/// The literal of an operand: a string escaped and quoted, an integer in
/// decimal, a decimal literal as it stands, a date after `DATE` and a time
/// after `TIME`.
pub open spec fn operand_text(v: OperandView) -> Seq<char> {
    match v {
        OperandView::String(s) => escape_text(s),
        OperandView::Signed(i) => signed_decimal(i),
        OperandView::Unsigned(u) => decimal(u),
        OperandView::Float(s) => s,
        OperandView::Date(d) => "DATE "@ + date_text(d),
        OperandView::DateTime(t) => "TIME "@ + date_time_text(t),
    }
}

/// The spelling of a condition: key, operator, operand.
pub open spec fn condition_text(c: ConditionView) -> Seq<char> {
    match c {
        ConditionView::Eq(key, v) => key + " = "@ + operand_text(v),
        ConditionView::Lt(key, v) => key + " < "@ + operand_text(v),
        ConditionView::Lte(key, v) => key + " <= "@ + operand_text(v),
        ConditionView::Gt(key, v) => key + " > "@ + operand_text(v),
        ConditionView::Gte(key, v) => key + " >= "@ + operand_text(v),
        ConditionView::Contains(key, s) => key + " CONTAINS "@ + escape_text(s),
        ConditionView::Exists(key) => key + " EXISTS"@,
    }
}

/// The spellings of the conditions, in order.
pub open spec fn condition_texts(cs: Seq<ConditionView>) -> Seq<Seq<char>> {
    Seq::new(cs.len(), |i: int| condition_text(cs[i]))
}

/// The clause that asks for an event type.
pub open spec fn event_clause(t: EventType) -> Seq<char> {
    "tm.event = '"@ + event_type_name(t) + "'"@
}

/// The canonical spelling of a query: the event type clause if there is
/// one, then the conditions in order, all joined by ` AND `.
pub open spec fn query_text(q: QueryView) -> Seq<char> {
    let conditions = join_text(" AND "@, condition_texts(q.conditions));
    match q.event_type {
        Some(t) => if q.conditions.len() == 0 {
            event_clause(t)
        } else {
            event_clause(t) + " AND "@ + conditions
        },
        None => conditions,
    }
}

/// A typed operand of a condition. A number with a fraction is held as the
/// decimal literal that spells it.
#[derive(Debug, Clone, PartialEq)]
pub enum Operand {
    String(String),
    Signed(i64),
    Unsigned(u64),
    Float(FloatLiteral),
    Date(Date),
    DateTime(DateTime),
}

impl View for Operand {
    type V = OperandView;

    open spec fn view(&self) -> OperandView {
        match self {
            Operand::String(s) => OperandView::String(s@),
            Operand::Signed(i) => OperandView::Signed(*i as int),
            Operand::Unsigned(u) => OperandView::Unsigned(*u as nat),
            Operand::Float(s) => OperandView::Float(s@),
            Operand::Date(d) => OperandView::Date(d@),
            Operand::DateTime(t) => OperandView::DateTime(t@),
        }
    }
}

impl Operand {
    /// The literal of this operand.
    pub fn to_string(&self) -> (r: String)
        ensures
            r@ == operand_text(self@),
    {
        match self {
            Operand::String(s) => escape(s.as_str()),
            Operand::Signed(i) => {
                let mut out = String::new();
                push_signed_decimal(&mut out, *i);
                assert(out@ =~= signed_decimal(*i as int));
                out
            },
            Operand::Unsigned(u) => {
                let mut out = String::new();
                push_decimal(&mut out, *u as u128);
                assert(out@ =~= decimal(*u as nat));
                out
            },
            Operand::Float(literal) => String::from_str(literal.as_str()),
            Operand::Date(d) => {
                let mut out = String::from_str("DATE ");
                out.append(d.to_string().as_str());
                out
            },
            Operand::DateTime(t) => {
                let mut out = String::from_str("TIME ");
                out.append(t.to_string().as_str());
                out
            },
        }
    }
}

impl From<String> for Operand {
    /// A string operand.
    fn from(source: String) -> (r: Operand) {
        Operand::String(source)
    }
}

impl FromSpecImpl<String> for Operand {
    open spec fn obeys_from_spec() -> bool {
        true
    }

    open spec fn from_spec(source: String) -> Operand {
        Operand::String(source)
    }
}

impl<'a> From<&'a str> for Operand {
    /// A string operand with the text of `source`.
    fn from(source: &'a str) -> (r: Operand)
        ensures
            r@ == OperandView::String(source@),
    {
        Operand::String(String::from_str(source))
    }
}

impl<'a> FromSpecImpl<&'a str> for Operand {
    open spec fn obeys_from_spec() -> bool {
        false
    }

    open spec fn from_spec(source: &'a str) -> Operand {
        arbitrary()
    }
}

impl From<char> for Operand {
    /// A string operand of the one character `source`.
    fn from(source: char) -> (r: Operand)
        ensures
            r@ == OperandView::String(seq![source]),
    {
        let mut text = String::new();
        text.push(source);
        assert(text@ =~= seq![source]);
        Operand::String(text)
    }
}

impl FromSpecImpl<char> for Operand {
    open spec fn obeys_from_spec() -> bool {
        false
    }

    open spec fn from_spec(source: char) -> Operand {
        arbitrary()
    }
}

impl From<i64> for Operand {
    /// A signed integer operand.
    fn from(source: i64) -> (r: Operand) {
        Operand::Signed(source)
    }
}

impl FromSpecImpl<i64> for Operand {
    open spec fn obeys_from_spec() -> bool {
        true
    }

    open spec fn from_spec(source: i64) -> Operand {
        Operand::Signed(source)
    }
}

impl From<i32> for Operand {
    /// A signed integer operand.
    fn from(source: i32) -> (r: Operand) {
        Operand::Signed(source as i64)
    }
}

impl FromSpecImpl<i32> for Operand {
    open spec fn obeys_from_spec() -> bool {
        true
    }

    open spec fn from_spec(source: i32) -> Operand {
        Operand::Signed(source as i64)
    }
}

impl From<i16> for Operand {
    /// A signed integer operand.
    fn from(source: i16) -> (r: Operand) {
        Operand::Signed(source as i64)
    }
}

impl FromSpecImpl<i16> for Operand {
    open spec fn obeys_from_spec() -> bool {
        true
    }

    open spec fn from_spec(source: i16) -> Operand {
        Operand::Signed(source as i64)
    }
}

impl From<i8> for Operand {
    /// A signed integer operand.
    fn from(source: i8) -> (r: Operand) {
        Operand::Signed(source as i64)
    }
}

impl FromSpecImpl<i8> for Operand {
    open spec fn obeys_from_spec() -> bool {
        true
    }

    open spec fn from_spec(source: i8) -> Operand {
        Operand::Signed(source as i64)
    }
}

impl From<u64> for Operand {
    /// An unsigned integer operand.
    fn from(source: u64) -> (r: Operand) {
        Operand::Unsigned(source)
    }
}

impl FromSpecImpl<u64> for Operand {
    open spec fn obeys_from_spec() -> bool {
        true
    }

    open spec fn from_spec(source: u64) -> Operand {
        Operand::Unsigned(source)
    }
}

impl From<u32> for Operand {
    /// An unsigned integer operand.
    fn from(source: u32) -> (r: Operand) {
        Operand::Unsigned(source as u64)
    }
}

impl FromSpecImpl<u32> for Operand {
    open spec fn obeys_from_spec() -> bool {
        true
    }

    open spec fn from_spec(source: u32) -> Operand {
        Operand::Unsigned(source as u64)
    }
}

impl From<u16> for Operand {
    /// An unsigned integer operand.
    fn from(source: u16) -> (r: Operand) {
        Operand::Unsigned(source as u64)
    }
}

impl FromSpecImpl<u16> for Operand {
    open spec fn obeys_from_spec() -> bool {
        true
    }

    open spec fn from_spec(source: u16) -> Operand {
        Operand::Unsigned(source as u64)
    }
}

impl From<u8> for Operand {
    /// An unsigned integer operand.
    fn from(source: u8) -> (r: Operand) {
        Operand::Unsigned(source as u64)
    }
}

impl FromSpecImpl<u8> for Operand {
    open spec fn obeys_from_spec() -> bool {
        true
    }

    open spec fn from_spec(source: u8) -> Operand {
        Operand::Unsigned(source as u64)
    }
}

impl From<usize> for Operand {
    /// An unsigned integer operand.
    fn from(source: usize) -> (r: Operand) {
        Operand::Unsigned(source as u64)
    }
}

impl FromSpecImpl<usize> for Operand {
    open spec fn obeys_from_spec() -> bool {
        true
    }

    open spec fn from_spec(source: usize) -> Operand {
        Operand::Unsigned(source as u64)
    }
}

impl From<FloatLiteral> for Operand {
    /// The operand of a decimal literal.
    fn from(source: FloatLiteral) -> (r: Operand) {
        Operand::Float(source)
    }
}

impl FromSpecImpl<FloatLiteral> for Operand {
    open spec fn obeys_from_spec() -> bool {
        true
    }

    open spec fn from_spec(source: FloatLiteral) -> Operand {
        Operand::Float(source)
    }
}

impl From<Date> for Operand {
    /// A date operand.
    fn from(source: Date) -> (r: Operand) {
        Operand::Date(source)
    }
}

impl FromSpecImpl<Date> for Operand {
    open spec fn obeys_from_spec() -> bool {
        true
    }

    open spec fn from_spec(source: Date) -> Operand {
        Operand::Date(source)
    }
}

impl From<DateTime> for Operand {
    /// A date and time operand.
    fn from(source: DateTime) -> (r: Operand) {
        Operand::DateTime(source)
    }
}

impl FromSpecImpl<DateTime> for Operand {
    open spec fn obeys_from_spec() -> bool {
        true
    }

    open spec fn from_spec(source: DateTime) -> Operand {
        Operand::DateTime(source)
    }
}

/// A condition of a query.
#[derive(Debug, Clone, PartialEq)]
pub enum Condition {
    /// Equals
    Eq(String, Operand),
    /// Less than
    Lt(String, Operand),
    /// Less than or equal to
    Lte(String, Operand),
    /// Greater than
    Gt(String, Operand),
    /// Greater than or equal to
    Gte(String, Operand),
    /// Contains (whether the value at a key has a certain substring)
    Contains(String, String),
    /// Exists (whether a key exists)
    Exists(String),
}

impl View for Condition {
    type V = ConditionView;

    open spec fn view(&self) -> ConditionView {
        match self {
            Condition::Eq(key, v) => ConditionView::Eq(key@, v@),
            Condition::Lt(key, v) => ConditionView::Lt(key@, v@),
            Condition::Lte(key, v) => ConditionView::Lte(key@, v@),
            Condition::Gt(key, v) => ConditionView::Gt(key@, v@),
            Condition::Gte(key, v) => ConditionView::Gte(key@, v@),
            Condition::Contains(key, s) => ConditionView::Contains(key@, s@),
            Condition::Exists(key) => ConditionView::Exists(key@),
        }
    }
}

/// `key`, `operator` and `operand`, one after the other.
fn spell(key: &String, operator: &str, operand: String) -> (r: String)
    ensures
        r@ == key@ + operator@ + operand@,
{
    let mut out = key.clone();
    out.append(operator);
    out.append(operand.as_str());
    out
}

impl Condition {
    /// The spelling of this condition.
    pub fn to_string(&self) -> (r: String)
        ensures
            r@ == condition_text(self@),
    {
        match self {
            Condition::Eq(key, v) => spell(key, " = ", v.to_string()),
            Condition::Lt(key, v) => spell(key, " < ", v.to_string()),
            Condition::Lte(key, v) => spell(key, " <= ", v.to_string()),
            Condition::Gt(key, v) => spell(key, " > ", v.to_string()),
            Condition::Gte(key, v) => spell(key, " >= ", v.to_string()),
            Condition::Contains(key, s) => spell(key, " CONTAINS ", escape(s.as_str())),
            Condition::Exists(key) => spell(key, " EXISTS", String::new()),
        }
    }
}

/// A structured query of the event subscription system. Its canonical
/// spelling, `query_text`, is its identity for routing.
#[derive(Debug, Clone, PartialEq)]
pub struct Query {
    // At most one event type.
    event_type: Option<EventType>,
    // The further conditions, joined by logical ANDs.
    conditions: Vec<Condition>,
}

impl View for Query {
    type V = QueryView;

    closed spec fn view(&self) -> QueryView {
        QueryView {
            event_type: self.event_type,
            conditions: Seq::new(self.conditions@.len(), |i: int| self.conditions@[i]@),
        }
    }
}

/// Two queries are routing-equivalent when they are spelled alike.
pub open spec fn routing_equivalent(a: QueryView, b: QueryView) -> bool {
    query_text(a) == query_text(b)
}

impl Query {
    fn single(condition: Condition) -> (q: Query)
        ensures
            q@ == (QueryView { event_type: None, conditions: seq![condition@] }),
    {
        let mut conditions: Vec<Condition> = Vec::new();
        conditions.push(condition);
        let q = Query { event_type: None, conditions };
        assert(q@.conditions =~= seq![condition@]);
        q
    }

    fn and(self, condition: Condition) -> (q: Query)
        ensures
            q@ == (QueryView {
                event_type: self@.event_type,
                conditions: self@.conditions.push(condition@),
            }),
    {
        let mut q = self;
        q.conditions.push(condition);
        assert(q@.conditions =~= self@.conditions.push(condition@));
        q
    }

    /// The query with the one condition `<key> = <value>`.
    pub fn eq(key: &str, value: Operand) -> (q: Query)
        ensures
            q@ == (QueryView {
                event_type: None,
                conditions: seq![ConditionView::Eq(key@, value@)],
            }),
    {
        Query::single(Condition::Eq(String::from_str(key), value))
    }

    /// The query with the one condition `<key> < <value>`.
    pub fn lt(key: &str, value: Operand) -> (q: Query)
        ensures
            q@ == (QueryView {
                event_type: None,
                conditions: seq![ConditionView::Lt(key@, value@)],
            }),
    {
        Query::single(Condition::Lt(String::from_str(key), value))
    }

    /// The query with the one condition `<key> <= <value>`.
    pub fn lte(key: &str, value: Operand) -> (q: Query)
        ensures
            q@ == (QueryView {
                event_type: None,
                conditions: seq![ConditionView::Lte(key@, value@)],
            }),
    {
        Query::single(Condition::Lte(String::from_str(key), value))
    }

    /// The query with the one condition `<key> > <value>`.
    pub fn gt(key: &str, value: Operand) -> (q: Query)
        ensures
            q@ == (QueryView {
                event_type: None,
                conditions: seq![ConditionView::Gt(key@, value@)],
            }),
    {
        Query::single(Condition::Gt(String::from_str(key), value))
    }

    /// The query with the one condition `<key> >= <value>`.
    pub fn gte(key: &str, value: Operand) -> (q: Query)
        ensures
            q@ == (QueryView {
                event_type: None,
                conditions: seq![ConditionView::Gte(key@, value@)],
            }),
    {
        Query::single(Condition::Gte(String::from_str(key), value))
    }

    /// The query with the one condition `<key> CONTAINS <value>`: whether
    /// the text at `key` has `value` as a substring.
    pub fn contains(key: &str, value: &str) -> (q: Query)
        ensures
            q@ == (QueryView {
                event_type: None,
                conditions: seq![ConditionView::Contains(key@, value@)],
            }),
    {
        Query::single(Condition::Contains(String::from_str(key), String::from_str(value)))
    }

    /// The query with the one condition `<key> EXISTS`.
    pub fn exists_key(key: &str) -> (q: Query)
        ensures
            q@ == (QueryView { event_type: None, conditions: seq![ConditionView::Exists(key@)] }),
    {
        Query::single(Condition::Exists(String::from_str(key)))
    }

    /// This query with the condition `<key> = <value>` added at the end.
    pub fn and_eq(self, key: &str, value: Operand) -> (q: Query)
        ensures
            q@ == (QueryView {
                event_type: self@.event_type,
                conditions: self@.conditions.push(ConditionView::Eq(key@, value@)),
            }),
    {
        self.and(Condition::Eq(String::from_str(key), value))
    }

    /// This query with the condition `<key> < <value>` added at the end.
    pub fn and_lt(self, key: &str, value: Operand) -> (q: Query)
        ensures
            q@ == (QueryView {
                event_type: self@.event_type,
                conditions: self@.conditions.push(ConditionView::Lt(key@, value@)),
            }),
    {
        self.and(Condition::Lt(String::from_str(key), value))
    }

    /// This query with the condition `<key> <= <value>` added at the end.
    pub fn and_lte(self, key: &str, value: Operand) -> (q: Query)
        ensures
            q@ == (QueryView {
                event_type: self@.event_type,
                conditions: self@.conditions.push(ConditionView::Lte(key@, value@)),
            }),
    {
        self.and(Condition::Lte(String::from_str(key), value))
    }

    /// This query with the condition `<key> > <value>` added at the end.
    pub fn and_gt(self, key: &str, value: Operand) -> (q: Query)
        ensures
            q@ == (QueryView {
                event_type: self@.event_type,
                conditions: self@.conditions.push(ConditionView::Gt(key@, value@)),
            }),
    {
        self.and(Condition::Gt(String::from_str(key), value))
    }

    /// This query with the condition `<key> >= <value>` added at the end.
    pub fn and_gte(self, key: &str, value: Operand) -> (q: Query)
        ensures
            q@ == (QueryView {
                event_type: self@.event_type,
                conditions: self@.conditions.push(ConditionView::Gte(key@, value@)),
            }),
    {
        self.and(Condition::Gte(String::from_str(key), value))
    }

    /// This query with the condition `<key> CONTAINS <value>` added at the
    /// end.
    pub fn and_contains(self, key: &str, value: &str) -> (q: Query)
        ensures
            q@ == (QueryView {
                event_type: self@.event_type,
                conditions: self@.conditions.push(ConditionView::Contains(key@, value@)),
            }),
    {
        self.and(Condition::Contains(String::from_str(key), String::from_str(value)))
    }

    /// This query with the condition `<key> EXISTS` added at the end.
    pub fn and_exists(self, key: &str) -> (q: Query)
        ensures
            q@ == (QueryView {
                event_type: self@.event_type,
                conditions: self@.conditions.push(ConditionView::Exists(key@)),
            }),
    {
        self.and(Condition::Exists(String::from_str(key)))
    }

    /// The event type that this query asks for, if any.
    pub fn event_type(&self) -> (t: Option<EventType>)
        ensures
            t == self@.event_type,
    {
        self.event_type
    }

    /// The canonical spelling of this query.
    pub fn to_string(&self) -> (r: String)
        ensures
            r@ == query_text(self@),
    {
        let mut parts: Vec<String> = Vec::new();
        let mut i: usize = 0;
        while i < self.conditions.len()
            invariant
                i <= self.conditions.len(),
                parts@.len() == i,
                forall|j: int| 0 <= j < i ==> parts@[j]@ == condition_text(#[trigger] self.conditions@[j]@),
            decreases self.conditions.len() - i,
        {
            parts.push(self.conditions[i].to_string());
            i += 1;
        }
        assert(views(parts@) =~= condition_texts(self@.conditions));
        let joined = join(" AND ", &parts);
        match self.event_type {
            Some(t) => {
                let mut out = String::from_str("tm.event = '");
                out.append(t.name());
                out.append("'");
                if parts.len() > 0 {
                    out.append(" AND ");
                    out.append(joined.as_str());
                }
                out
            },
            None => joined,
        }
    }

    /// Whether this query and `other` are spelled alike, and so share one
    /// subscription.
    pub fn routing_equivalent(&self, other: &Query) -> (r: bool)
        ensures
            r == routing_equivalent(self@, other@),
    {
        self.to_string() == other.to_string()
    }
}

impl Default for Query {
    /// The empty query, which matches every event.
    fn default() -> (q: Query)
        ensures
            q@ == (QueryView { event_type: None, conditions: Seq::empty() }),
    {
        let q = Query { event_type: None, conditions: Vec::new() };
        assert(q@.conditions =~= Seq::empty());
        q
    }
}

impl From<EventType> for Query {
    /// The query that asks for events of type `t` and has no condition.
    fn from(t: EventType) -> (q: Query)
        ensures
            q@ == (QueryView { event_type: Some(t), conditions: Seq::empty() }),
    {
        let q = Query { event_type: Some(t), conditions: Vec::new() };
        assert(q@.conditions =~= Seq::empty());
        q
    }
}

impl FromSpecImpl<EventType> for Query {
    open spec fn obeys_from_spec() -> bool {
        false
    }

    open spec fn from_spec(t: EventType) -> Query {
        arbitrary()
    }
}

/// Queries with the same event type and the same conditions are spelled
/// alike: the spelling depends on nothing else.
pub proof fn rendering_is_deterministic(a: Query, b: Query)
    requires
        a@ == b@,
    ensures
        query_text(a@) == query_text(b@),
        routing_equivalent(a@, b@),
{
}

/// The empty query is spelled as the empty string.
pub proof fn empty_query_is_empty_text()
    ensures
        query_text(QueryView { event_type: None, conditions: Seq::empty() }) == Seq::<char>::empty(),
{
    assert(condition_texts(Seq::<ConditionView>::empty()).len() == 0);
}

/// Adding a condition to a query adds ` AND ` and the condition's spelling
/// to the query's; added to the empty query, the condition stands alone.
pub proof fn appending_a_condition(q: QueryView, c: ConditionView)
    ensures
        query_text(QueryView { event_type: q.event_type, conditions: q.conditions.push(c) }) == (if q.event_type is None
            && q.conditions.len() == 0 {
            condition_text(c)
        } else {
            query_text(q) + " AND "@ + condition_text(c)
        }),
{
    let longer = q.conditions.push(c);
    let texts = condition_texts(longer);
    assert(texts.drop_last() =~= condition_texts(q.conditions));
    assert(texts.last() == condition_text(c));
    let sep = " AND "@;
    let joined = join_text(sep, condition_texts(q.conditions));
    if q.conditions.len() == 0 {
        assert(join_text(sep, texts) == condition_text(c));
        assert(joined =~= Seq::<char>::empty());
    } else {
        assert(join_text(sep, texts) == joined + sep + condition_text(c));
        if q.event_type is Some {
            let clause = event_clause(q.event_type->Some_0);
            assert(clause + sep + (joined + sep + condition_text(c)) =~= (clause + sep + joined) + sep
                + condition_text(c));
        }
    }
}

} // verus!
