//! The statements produced by the parser, their models and their SQL text.

use crate::text::push_str;
use sqlparser::tokenizer::Span;
use vstd::prelude::*;

verus! {

/// An identifier, possibly quoted.
#[derive(Debug, PartialEq)]
pub struct Ident {
    pub value: String,
    pub quote_style: Option<char>,
}

/// Model of [`Ident`].
pub struct IdentV {
    pub value: Seq<char>,
    pub quote_style: Option<char>,
}

impl View for Ident {
    type V = IdentV;

    open spec fn view(&self) -> IdentV {
        IdentV { value: self.value@, quote_style: self.quote_style }
    }
}

impl Ident {
    /// An unquoted identifier.
    pub fn new(value: &str) -> (res: Ident)
        ensures
            res@ == (IdentV { value: value@, quote_style: None }),
    {
        Ident { value: crate::text::string_of(value), quote_style: None }
    }

    /// An identifier quoted with `quote`.
    pub fn with_quote(quote: char, value: &str) -> (res: Ident)
        ensures
            res@ == (IdentV { value: value@, quote_style: Some(quote) }),
    {
        Ident { value: crate::text::string_of(value), quote_style: Some(quote) }
    }
}

/// A possibly qualified name such as `catalog.schema.table`.
#[derive(Debug, PartialEq)]
pub struct ObjectName(pub Vec<Ident>);

/// The models of a sequence of identifiers.
pub open spec fn idents_view(v: Seq<Ident>) -> Seq<IdentV> {
    v.map_values(|i: Ident| i@)
}

impl View for ObjectName {
    type V = Seq<IdentV>;

    open spec fn view(&self) -> Seq<IdentV> {
        idents_view(self.0@)
    }
}

impl ObjectName {
    /// The name made of `idents`, in order.
    pub fn from_idents(idents: Vec<Ident>) -> (res: ObjectName)
        ensures
            res@ == idents_view(idents@),
    {
        ObjectName(idents)
    }
}

/// The models of a sequence of names.
pub open spec fn names_view(v: Seq<ObjectName>) -> Seq<Seq<IdentV>> {
    v.map_values(|n: ObjectName| n@)
}

/// The map that a list of entries gives when they are inserted in order (a
/// later entry for a key replaces an earlier one).
pub open spec fn entries_map(e: Seq<(Seq<char>, Seq<char>)>) -> Map<Seq<char>, Seq<char>>
    decreases e.len(),
{
    if e.len() == 0 {
        Map::empty()
    } else {
        entries_map(e.drop_last()).insert(e.last().0, e.last().1)
    }
}

/// Options given to a DDL statement by `WITH (key = value, ...)`.
#[derive(Debug)]
pub struct OptionMap {
    entries: Vec<(String, String)>,
}

/// The models of a list of string pairs.
pub open spec fn pairs_view(v: Seq<(String, String)>) -> Seq<(Seq<char>, Seq<char>)> {
    v.map_values(|p: (String, String)| (p.0@, p.1@))
}

impl View for OptionMap {
    type V = Map<Seq<char>, Seq<char>>;

    closed spec fn view(&self) -> Map<Seq<char>, Seq<char>> {
        entries_map(pairs_view(self.entries@))
    }
}

impl OptionMap {
    /// An empty map.
    pub fn new() -> (res: OptionMap)
        ensures
            res@ == Map::<Seq<char>, Seq<char>>::empty(),
    {
        let res = OptionMap { entries: Vec::new() };
        assert(pairs_view(res.entries@) =~= Seq::empty());
        res
    }

    /// Sets `key` to `value`, replacing an earlier value.
    pub fn insert(&mut self, key: String, value: String)
        ensures
            final(self)@ == old(self)@.insert(key@, value@),
    {
        let ghost before = pairs_view(self.entries@);
        let ghost kv = (key@, value@);
        self.entries.push((key, value));
        assert(pairs_view(self.entries@).drop_last() =~= before);
    }

    /// The value of `key`, if it is set.
    pub fn get(&self, key: &str) -> (res: Option<&str>)
        ensures
            match res {
                Some(v) => self@.contains_key(key@) && self@[key@] == v@,
                None => !self@.contains_key(key@),
            },
    {
        let ghost e = pairs_view(self.entries@);
        let mut found: Option<usize> = None;
        let mut i: usize = 0;
        while i < self.entries.len()
            invariant
                i <= self.entries.len(),
                e == pairs_view(self.entries@),
                match found {
                    Some(j) => j < i && entries_map(e.take(i as int)).contains_key(key@)
                        && entries_map(e.take(i as int))[key@] == e[j as int].1,
                    None => !entries_map(e.take(i as int)).contains_key(key@),
                },
            decreases self.entries.len() - i,
        {
            assert(e.take(i + 1).drop_last() =~= e.take(i as int));
            if crate::text::str_equals(self.entries[i].0.as_str(), key) {
                found = Some(i);
            }
            i = i + 1;
        }
        assert(e.take(self.entries.len() as int) =~= e);
        match found {
            Some(j) => Some(self.entries[j].1.as_str()),
            None => None,
        }
    }
}

/// A key is in the map of a list of entries exactly when some entry has it.
pub proof fn lemma_entries_map_has(e: Seq<(Seq<char>, Seq<char>)>, k: Seq<char>)
    ensures
        entries_map(e).contains_key(k) <==> exists|i: int| 0 <= i < e.len() && (#[trigger] e[i]).0 == k,
    decreases e.len(),
{
    if e.len() > 0 {
        let d = e.drop_last();
        lemma_entries_map_has(d, k);
        if entries_map(e).contains_key(k) {
            if k == e.last().0 {
                assert(e[e.len() - 1].0 == k);
            } else {
                let i = choose|i: int| 0 <= i < d.len() && (#[trigger] d[i]).0 == k;
                assert(e[i] == d[i]);
            }
        }
        if exists|i: int| 0 <= i < e.len() && (#[trigger] e[i]).0 == k {
            let i = choose|i: int| 0 <= i < e.len() && (#[trigger] e[i]).0 == k;
            if i < e.len() - 1 {
                assert(d[i] == e[i]);
            }
        }
    }
}

impl OptionMap {
    /// Whether every key of `other` is in this map with the same value.
    fn includes(&self, other: &OptionMap) -> (res: bool)
        ensures
            res == (forall|k: Seq<char>| #[trigger] other@.contains_key(k) ==> self@.contains_key(k) && self@[k] == other@[k]),
    {
        let ghost oe = pairs_view(other.entries@);
        let mut i: usize = 0;
        while i < other.entries.len()
            invariant
                i <= other.entries.len(),
                oe == pairs_view(other.entries@),
                forall|j: int| 0 <= j < i ==> self@.contains_key(#[trigger] oe[j].0) && self@[oe[j].0] == other@[oe[j].0],
            decreases other.entries.len() - i,
        {
            let key = other.entries[i].0.as_str();
            proof {
                assert(oe[i as int].0 == key@);
                lemma_entries_map_has(oe, key@);
            }
            let theirs = other.get(key);
            let mine = self.get(key);
            let same = match (mine, theirs) {
                (Some(a), Some(b)) => crate::text::str_equals(a, b),
                _ => false,
            };
            if !same {
                return false;
            }
            i = i + 1;
        }
        assert forall|k: Seq<char>| #[trigger] other@.contains_key(k) implies self@.contains_key(k) && self@[k] == other@[k] by {
            lemma_entries_map_has(oe, k);
            let j = choose|j: int| 0 <= j < oe.len() && (#[trigger] oe[j]).0 == k;
            assert(oe[j].0 == k);
        }
        true
    }
}

impl PartialEq for OptionMap {
    fn eq(&self, other: &OptionMap) -> (res: bool) {
        let res = self.includes(other) && other.includes(self);
        proof {
            if res {
                assert(self@ =~= other@);
            }
        }
        res
    }
}

impl vstd::std_specs::cmp::PartialEqSpecImpl for OptionMap {
    open spec fn obeys_eq_spec() -> bool {
        true
    }

    open spec fn eq_spec(&self, other: &OptionMap) -> bool {
        self@ == other@
    }
}

impl Default for OptionMap {
    fn default() -> (res: OptionMap)
        ensures
            res@ == Map::<Seq<char>, Seq<char>>::empty(),
    {
        OptionMap::new()
    }
}

/// `DROP TABLE [IF EXISTS] name [, name ...] [WITH (...)]`
#[derive(Debug, PartialEq)]
pub struct DropTable {
    pub table_names: Vec<ObjectName>,
    pub drop_if_exists: bool,
    pub ddl_options: OptionMap,
}

impl DropTable {
    pub fn new(table_names: Vec<ObjectName>, drop_if_exists: bool, ddl_options: OptionMap) -> (res: DropTable)
        ensures
            res.table_names == table_names,
            res.drop_if_exists == drop_if_exists,
            res.ddl_options == ddl_options,
    {
        DropTable { table_names, drop_if_exists, ddl_options }
    }
}

/// `DROP VIEW [IF EXISTS] name [WITH (...)]`
#[derive(Debug, PartialEq)]
pub struct DropView {
    pub view_name: ObjectName,
    pub drop_if_exists: bool,
    pub ddl_options: OptionMap,
}

/// `DROP FLOW [IF EXISTS] name [WITH (...)]`
#[derive(Debug, PartialEq)]
pub struct DropFlow {
    pub flow_name: ObjectName,
    pub drop_if_exists: bool,
    pub ddl_options: OptionMap,
}

impl DropFlow {
    pub fn new(flow_name: ObjectName, drop_if_exists: bool, ddl_options: OptionMap) -> (res: DropFlow)
        ensures
            res.flow_name == flow_name,
            res.drop_if_exists == drop_if_exists,
            res.ddl_options == ddl_options,
    {
        DropFlow { flow_name, drop_if_exists, ddl_options }
    }
}

/// `DROP DATABASE | SCHEMA [IF EXISTS] name [WITH (...)]`
#[derive(Debug, PartialEq)]
pub struct DropDatabase {
    pub name: ObjectName,
    pub drop_if_exists: bool,
    pub ddl_options: OptionMap,
}

impl DropDatabase {
    pub fn new(name: ObjectName, drop_if_exists: bool, ddl_options: OptionMap) -> (res: DropDatabase)
        ensures
            res.name == name,
            res.drop_if_exists == drop_if_exists,
            res.ddl_options == ddl_options,
    {
        DropDatabase { name, drop_if_exists, ddl_options }
    }
}

/// `DROP TRIGGER [IF EXISTS] name [WITH (...)]`
#[derive(Debug, PartialEq)]
pub struct DropTrigger {
    pub trigger_name: ObjectName,
    pub drop_if_exists: bool,
    pub ddl_options: OptionMap,
}

/// Model of [`DropTrigger`].
pub struct DropTriggerV {
    pub name: Seq<IdentV>,
    pub if_exists: bool,
    pub options: Map<Seq<char>, Seq<char>>,
}

impl View for DropTrigger {
    type V = DropTriggerV;

    open spec fn view(&self) -> DropTriggerV {
        DropTriggerV { name: self.trigger_name@, if_exists: self.drop_if_exists, options: self.ddl_options@ }
    }
}

impl DropTrigger {
    pub fn new(trigger_name: ObjectName, drop_if_exists: bool, ddl_options: OptionMap) -> (res: DropTrigger)
        ensures
            res.trigger_name == trigger_name,
            res.drop_if_exists == drop_if_exists,
            res.ddl_options == ddl_options,
    {
        DropTrigger { trigger_name, drop_if_exists, ddl_options }
    }
}

/// A parsed statement.
#[derive(Debug, PartialEq)]
pub enum Statement {
    DropTable(DropTable),
    DropView(DropView),
    DropFlow(DropFlow),
    DropDatabase(DropDatabase),
}

/// Model of [`Statement`].
pub enum StatementV {
    DropTable { names: Seq<Seq<IdentV>>, if_exists: bool, options: Map<Seq<char>, Seq<char>> },
    DropView { name: Seq<IdentV>, if_exists: bool, options: Map<Seq<char>, Seq<char>> },
    DropFlow { name: Seq<IdentV>, if_exists: bool, options: Map<Seq<char>, Seq<char>> },
    DropDatabase { name: Seq<IdentV>, if_exists: bool, options: Map<Seq<char>, Seq<char>> },
}

impl View for Statement {
    type V = StatementV;

    open spec fn view(&self) -> StatementV {
        match self {
            Statement::DropTable(d) => StatementV::DropTable {
                names: names_view(d.table_names@),
                if_exists: d.drop_if_exists,
                options: d.ddl_options@,
            },
            Statement::DropView(d) => StatementV::DropView {
                name: d.view_name@,
                if_exists: d.drop_if_exists,
                options: d.ddl_options@,
            },
            Statement::DropFlow(d) => StatementV::DropFlow {
                name: d.flow_name@,
                if_exists: d.drop_if_exists,
                options: d.ddl_options@,
            },
            Statement::DropDatabase(d) => StatementV::DropDatabase {
                name: d.name@,
                if_exists: d.drop_if_exists,
                options: d.ddl_options@,
            },
        }
    }
}

/// The models of a sequence of statements.
pub open spec fn statements_view(v: Seq<Statement>) -> Seq<StatementV> {
    v.map_values(|s: Statement| s@)
}

// ---------------------------------------------------------------------------
// SQL text

/// The quote styles an identifier can be written with.
pub open spec fn valid_quote(q: Option<char>) -> bool {
    q is None || q == Some('"') || q == Some('\'') || q == Some('`') || q == Some('[')
}

/// Every identifier of a name has a quote style it can be written with.
pub open spec fn valid_name(n: Seq<IdentV>) -> bool {
    forall|i: int| 0 <= i < n.len() ==> valid_quote(#[trigger] n[i].quote_style)
}

/// How `sqlparser` writes an identifier quoted with `"`, `'` or a backtick:
/// between two quote characters, with the quote character inside escaped.
pub uninterp spec fn spec_ident_sql(value: Seq<char>, quote_style: Option<char>) -> Seq<char>;

/// How `sqlparser` writes an identifier: an unquoted one as its value, one
/// quoted with `[` between `[` and `]`, any other as `spec_ident_sql` says.
pub open spec fn spec_ident_text(value: Seq<char>, quote_style: Option<char>) -> Seq<char> {
    if quote_style is None {
        value
    } else if quote_style == Some('[') {
        "["@ + value + "]"@
    } else {
        spec_ident_sql(value, quote_style)
    }
}

/// Writes an identifier with `sqlparser`'s `Display` for `Ident`: an unquoted
/// identifier as its value, a `[`-quoted one as `[value]`; the text of an
/// identifier quoted otherwise is a function of the value and the quote style,
/// named `spec_ident_sql`.
#[verifier::external_body]
fn ident_sql(id: &Ident) -> (res: String)
    requires
        valid_quote(id.quote_style),
    ensures
        id.quote_style is None ==> res@ == id.value@,
        id.quote_style == Some('[') ==> res@ == "["@ + id.value@ + "]"@,
        id.quote_style is Some && id.quote_style != Some('[') ==> res@ == spec_ident_sql(id.value@, id.quote_style),
{
    sqlparser::ast::Ident { value: id.value.clone(), quote_style: id.quote_style, span: Span::empty() }.to_string()
}

/// The text of a name: its identifiers joined by `.`.
pub open spec fn spec_name_sql(n: Seq<IdentV>) -> Seq<char>
    decreases n.len(),
{
    if n.len() == 0 {
        Seq::empty()
    } else if n.len() == 1 {
        spec_ident_text(n[0].value, n[0].quote_style)
    } else {
        spec_name_sql(n.drop_last()) + "."@ + spec_ident_text(n.last().value, n.last().quote_style)
    }
}

/// The text of a list of table names: each preceded by a space, separated by commas.
pub open spec fn spec_table_list_sql(names: Seq<Seq<IdentV>>) -> Seq<char>
    decreases names.len(),
{
    if names.len() == 0 {
        Seq::empty()
    } else {
        let sep = if names.len() > 1 { ","@ } else { Seq::empty() };
        spec_table_list_sql(names.drop_last()) + sep + " "@ + spec_name_sql(names.last())
    }
}

/// `" IF EXISTS"` when the flag is set.
pub open spec fn spec_if_exists_sql(if_exists: bool) -> Seq<char> {
    if if_exists { " IF EXISTS"@ } else { Seq::empty() }
}

/// The SQL text of a statement.
pub open spec fn spec_statement_sql(s: StatementV) -> Seq<char> {
    match s {
        StatementV::DropTable { names, if_exists, .. } =>
            "DROP TABLE"@ + spec_if_exists_sql(if_exists) + spec_table_list_sql(names),
        StatementV::DropView { name, if_exists, .. } =>
            "DROP VIEW"@ + spec_if_exists_sql(if_exists) + " "@ + spec_name_sql(name),
        StatementV::DropFlow { name, if_exists, .. } =>
            "DROP FLOW"@ + spec_if_exists_sql(if_exists) + " "@ + spec_name_sql(name),
        StatementV::DropDatabase { name, if_exists, .. } =>
            "DROP DATABASE"@ + spec_if_exists_sql(if_exists) + " "@ + spec_name_sql(name),
    }
}

/// Every name in the list can be written.
pub open spec fn valid_names(names: Seq<Seq<IdentV>>) -> bool {
    forall|i: int| 0 <= i < names.len() ==> valid_name(#[trigger] names[i])
}

/// Every name in the statement can be written.
pub open spec fn valid_statement(s: StatementV) -> bool {
    match s {
        StatementV::DropTable { names, .. } => valid_names(names),
        StatementV::DropView { name, .. } => valid_name(name),
        StatementV::DropFlow { name, .. } => valid_name(name),
        StatementV::DropDatabase { name, .. } => valid_name(name),
    }
}

impl ObjectName {
    /// The SQL text of the name.
    pub fn to_sql(&self) -> (res: String)
        requires
            valid_name(self@),
        ensures
            res@ == spec_name_sql(self@),
    {
        let mut out = String::new();
        let mut i: usize = 0;
        while i < self.0.len()
            invariant
                i <= self.0.len(),
                valid_name(self@),
                out@ == spec_name_sql(self@.take(i as int)),
            decreases self.0.len() - i,
        {
            let ghost n = self@;
            assert(n.take(i + 1).drop_last() =~= n.take(i as int));
            assert(n[i as int] == self.0[i as int]@);
            assert(valid_quote(n[i as int].quote_style));
            if i > 0 {
                push_str(&mut out, ".");
            }
            let part = ident_sql(&self.0[i]);
            push_str(&mut out, part.as_str());
            proof {
                if i == 0 {
                    assert(out@ =~= spec_name_sql(n.take(1)));
                }
            }
            i = i + 1;
        }
        assert(self@.take(self.0.len() as int) =~= self@);
        out
    }
}

fn push_if_exists(out: &mut String, if_exists: bool)
    ensures
        final(out)@ == old(out)@ + spec_if_exists_sql(if_exists),
{
    if if_exists {
        push_str(out, " IF EXISTS");
    } else {
        assert(old(out)@ + Seq::<char>::empty() =~= old(out)@);
    }
}

impl Statement {
    /// The SQL text of the statement (options are not written).
    pub fn to_sql(&self) -> (res: String)
        requires
            valid_statement(self@),
        ensures
            res@ == spec_statement_sql(self@),
    {
        match self {
            Statement::DropTable(d) => {
                let mut out = crate::text::string_of("DROP TABLE");
                push_if_exists(&mut out, d.drop_if_exists);
                let ghost head = out@;
                let ghost names = names_view(d.table_names@);
                assert(self@ == (StatementV::DropTable {
                    names,
                    if_exists: d.drop_if_exists,
                    options: d.ddl_options@,
                }));
                assert(valid_names(names));
                let mut i: usize = 0;
                while i < d.table_names.len()
                    invariant
                        i <= d.table_names.len(),
                        names == names_view(d.table_names@),
                        valid_names(names),
                        out@ == head + spec_table_list_sql(names.take(i as int)),
                    decreases d.table_names.len() - i,
                {
                    assert(names.take(i + 1).drop_last() =~= names.take(i as int));
                    assert(names[i as int] == d.table_names[i as int]@);
                    if i > 0 {
                        push_str(&mut out, ",");
                    }
                    push_str(&mut out, " ");
                    let part = d.table_names[i].to_sql();
                    push_str(&mut out, part.as_str());
                    assert(out@ =~= head + spec_table_list_sql(names.take(i + 1)));
                    i = i + 1;
                }
                assert(names.take(d.table_names.len() as int) =~= names);
                out
            },
            Statement::DropView(d) => {
                let mut out = crate::text::string_of("DROP VIEW");
                push_if_exists(&mut out, d.drop_if_exists);
                push_str(&mut out, " ");
                let name = d.view_name.to_sql();
                push_str(&mut out, name.as_str());
                out
            },
            Statement::DropFlow(d) => {
                let mut out = crate::text::string_of("DROP FLOW");
                push_if_exists(&mut out, d.drop_if_exists);
                push_str(&mut out, " ");
                let name = d.flow_name.to_sql();
                push_str(&mut out, name.as_str());
                out
            },
            Statement::DropDatabase(d) => {
                let mut out = crate::text::string_of("DROP DATABASE");
                push_if_exists(&mut out, d.drop_if_exists);
                push_str(&mut out, " ");
                let name = d.name.to_sql();
                push_str(&mut out, name.as_str());
                out
            },
        }
    }
}

} // verus!
