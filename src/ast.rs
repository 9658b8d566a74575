//! The syntax trees of the three dialects, and what each of them holds.
use vstd::prelude::*;

use crate::json::{member_models, Json, JsonModel};

verus! {

/// Members of a map, as written: `key: value` pairs, keys all different.
pub type MapModel = Seq<(Seq<char>, JsonModel)>;

/// A block of `key: value` pairs, in the order written; no key occurs twice.
#[derive(Debug, PartialEq)]
pub struct JsonMap {
    pub entries: Vec<(String, Json)>,
}

impl View for JsonMap {
    type V = MapModel;

    open spec fn view(&self) -> MapModel {
        member_models(self.entries@)
    }
}

/// Whether a key occurs in the members.
pub open spec fn has_key(m: MapModel, k: Seq<char>) -> bool {
    exists|i: int| 0 <= i < m.len() && (#[trigger] m[i]).0 == k
}

/// No key occurs twice.
pub open spec fn keys_distinct(m: MapModel) -> bool {
    forall|i: int, j: int| 0 <= i < j < m.len() ==> (#[trigger] m[i]).0 != (#[trigger] m[j]).0
}

impl JsonMap {
    /// The number of members.
    pub fn len(&self) -> (r: usize)
        ensures
            r == self@.len(),
    {
        self.entries.len()
    }

    /// Whether there are no members.
    pub fn is_empty(&self) -> (r: bool)
        ensures
            r == (self@.len() == 0),
    {
        self.entries.len() == 0
    }

    /// The value stored under `key`.
    pub fn get(&self, key: &str) -> (r: Option<&Json>)
        ensures
            r matches Some(v) ==> exists|i: int|
                0 <= i < self@.len() && self@[i].0 == key@ && #[trigger] self@[i].1 == v@,
            r is None ==> !has_key(self@, key@),
    {
        broadcast use vstd::string::group_string_axioms;
        let k = key.to_string();
        let mut i: usize = 0;
        while i < self.entries.len()
            invariant
                k@ == key@,
                i <= self.entries.len(),
                forall|j: int| 0 <= j < i ==> self@[j].0 != key@,
            decreases self.entries.len() - i,
        {
            if self.entries[i].0 == k {
                assert(self@[i as int].1 == self.entries[i as int].1@);
                return Some(&self.entries[i].1);
            }
            i = i + 1;
        }
        None
    }
}

/// Models of optional maps.
pub open spec fn opt_map(m: Option<JsonMap>) -> Option<MapModel> {
    match m {
        Some(m) => Some(m@),
        None => None,
    }
}

/// A command in any of the three dialects.
#[derive(Debug, PartialEq)]
pub enum Command {
    Kql(KqlQuery),
    Kml(KmlStatement),
    Meta(MetaCommand),
}

/// A query: the variables to return and the clauses that bind them.
#[derive(Debug, PartialEq)]
pub struct KqlQuery {
    pub find: Vec<String>,
    pub clauses: Vec<WhereClause>,
}

/// One clause of a `WHERE` block.
#[derive(Debug, PartialEq)]
pub enum WhereClause {
    /// `?var(key: value, ...)`: binds a variable to the nodes that have
    /// these attribute values.
    Pattern { var: String, filter: JsonMap },
    /// `ATTR(?node, "name", ?value)`: binds a variable to an attribute of a
    /// bound node.
    Attr { node: String, attribute: String, value: String },
}

/// A manipulation statement.
#[derive(Debug, PartialEq)]
pub enum KmlStatement {
    Upsert(UpsertBlock),
    Delete(DeleteBlock),
}

/// `UPSERT { ... } WITH METADATA { ... }`: items in the order written, and
/// metadata for all of them.
#[derive(Debug, PartialEq)]
pub struct UpsertBlock {
    pub items: Vec<UpsertItem>,
    pub metadata: Option<JsonMap>,
}

/// One item of an upsert block.
#[derive(Debug, PartialEq)]
pub enum UpsertItem {
    Concept(ConceptBlock),
}

/// `CONCEPT @handle { ON {...} WITH METADATA {...} SET ATTRIBUTES {...}
/// SET PROPOSITIONS {...} }`.
#[derive(Debug, PartialEq)]
pub struct ConceptBlock {
    pub handle: String,
    pub on: OnClause,
    pub metadata: Option<JsonMap>,
    pub set_attributes: Option<JsonMap>,
    pub set_propositions: Option<Vec<PropositionDecl>>,
}

/// `ON { ... }`: the keys that find or create a concept; never empty.
#[derive(Debug, PartialEq)]
pub struct OnClause {
    pub keys: JsonMap,
}

/// `PROP("relation", target) WITH METADATA {...}`.
#[derive(Debug, PartialEq)]
pub struct PropositionDecl {
    pub relation: String,
    pub target: PropTarget,
    pub metadata: Option<JsonMap>,
}

/// The object of a proposition: an existing concept, or an item of the same
/// block by its handle.
#[derive(Debug, PartialEq)]
pub enum PropTarget {
    On(OnClause),
    Handle(String),
}

/// `DELETE { CONCEPT ON {...} ... }`: the concepts to remove.
#[derive(Debug, PartialEq)]
pub struct DeleteBlock {
    pub items: Vec<DeleteItem>,
}

/// One item of a delete block.
#[derive(Debug, PartialEq)]
pub enum DeleteItem {
    Concept(OnClause),
}

/// An introspection command.
#[derive(Debug, PartialEq)]
pub enum MetaCommand {
    Describe(DescribeTarget),
}

/// What `DESCRIBE` describes.
#[derive(Debug, PartialEq)]
pub enum DescribeTarget {
    Primer,
    Domains,
    ConceptTypes,
    ConceptType(String),
    PropositionTypes,
    PropositionType(String),
}

/// The views of a sequence of values.
pub open spec fn views<T: View>(v: Seq<T>) -> Seq<T::V> {
    Seq::new(v.len(), |k: int| v[k]@)
}

/// Viewing a sequence with one more value at its end.
pub proof fn lemma_views_push<T: View>(v: Seq<T>, x: T)
    ensures
        views(v.push(x)) == views(v) + seq![x@],
{
    assert(views(v.push(x)) =~= views(v) + seq![x@]);
}

/// The object of a proposition.
pub enum TargetModel {
    On(MapModel),
    Handle(Seq<char>),
}

/// A proposition of a concept.
pub struct PropModel {
    pub relation: Seq<char>,
    pub target: TargetModel,
    pub metadata: Option<MapModel>,
}

/// A concept of an upsert block.
pub struct ConceptModel {
    pub handle: Seq<char>,
    pub on: MapModel,
    pub metadata: Option<MapModel>,
    pub set_attributes: Option<MapModel>,
    pub set_propositions: Option<Seq<PropModel>>,
}

/// A manipulation statement.
pub enum KmlModel {
    Upsert { items: Seq<ConceptModel>, metadata: Option<MapModel> },
    Delete { items: Seq<MapModel> },
}

impl View for PropTarget {
    type V = TargetModel;

    open spec fn view(&self) -> TargetModel {
        match self {
            PropTarget::On(c) => TargetModel::On(c.keys@),
            PropTarget::Handle(h) => TargetModel::Handle(h@),
        }
    }
}

impl View for PropositionDecl {
    type V = PropModel;

    open spec fn view(&self) -> PropModel {
        PropModel { relation: self.relation@, target: self.target@, metadata: opt_map(self.metadata) }
    }
}

impl View for ConceptBlock {
    type V = ConceptModel;

    open spec fn view(&self) -> ConceptModel {
        ConceptModel {
            handle: self.handle@,
            on: self.on.keys@,
            metadata: opt_map(self.metadata),
            set_attributes: opt_map(self.set_attributes),
            set_propositions: match self.set_propositions {
                Some(v) => Some(views(v@)),
                None => None,
            },
        }
    }
}

impl View for UpsertItem {
    type V = ConceptModel;

    open spec fn view(&self) -> ConceptModel {
        match self {
            UpsertItem::Concept(c) => c@,
        }
    }
}

impl View for DeleteItem {
    type V = MapModel;

    open spec fn view(&self) -> MapModel {
        match self {
            DeleteItem::Concept(c) => c.keys@,
        }
    }
}

impl View for KmlStatement {
    type V = KmlModel;

    open spec fn view(&self) -> KmlModel {
        match self {
            KmlStatement::Upsert(b) => KmlModel::Upsert {
                items: views(b.items@),
                metadata: opt_map(b.metadata),
            },
            KmlStatement::Delete(b) => KmlModel::Delete { items: views(b.items@) },
        }
    }
}

/// A clause of a query.
pub enum ClauseModel {
    Pattern { var: Seq<char>, filter: MapModel },
    Attr { node: Seq<char>, attribute: Seq<char>, value: Seq<char> },
}

/// A query.
pub struct KqlModel {
    pub find: Seq<Seq<char>>,
    pub clauses: Seq<ClauseModel>,
}

/// What `DESCRIBE` describes.
pub enum DescribeModel {
    Primer,
    Domains,
    ConceptTypes,
    ConceptType(Seq<char>),
    PropositionTypes,
    PropositionType(Seq<char>),
}

/// A command of any dialect.
pub enum CommandModel {
    Kql(KqlModel),
    Kml(KmlModel),
    Meta(DescribeModel),
}

impl View for WhereClause {
    type V = ClauseModel;

    open spec fn view(&self) -> ClauseModel {
        match self {
            WhereClause::Pattern { var, filter } => ClauseModel::Pattern { var: var@, filter: filter@ },
            WhereClause::Attr { node, attribute, value } => ClauseModel::Attr {
                node: node@,
                attribute: attribute@,
                value: value@,
            },
        }
    }
}

impl View for KqlQuery {
    type V = KqlModel;

    open spec fn view(&self) -> KqlModel {
        KqlModel { find: views(self.find@), clauses: views(self.clauses@) }
    }
}

impl View for DescribeTarget {
    type V = DescribeModel;

    open spec fn view(&self) -> DescribeModel {
        match self {
            DescribeTarget::Primer => DescribeModel::Primer,
            DescribeTarget::Domains => DescribeModel::Domains,
            DescribeTarget::ConceptTypes => DescribeModel::ConceptTypes,
            DescribeTarget::ConceptType(n) => DescribeModel::ConceptType(n@),
            DescribeTarget::PropositionTypes => DescribeModel::PropositionTypes,
            DescribeTarget::PropositionType(n) => DescribeModel::PropositionType(n@),
        }
    }
}

impl View for MetaCommand {
    type V = DescribeModel;

    open spec fn view(&self) -> DescribeModel {
        match self {
            MetaCommand::Describe(t) => t@,
        }
    }
}

impl View for Command {
    type V = CommandModel;

    open spec fn view(&self) -> CommandModel {
        match self {
            Command::Kql(q) => CommandModel::Kql(q@),
            Command::Kml(k) => CommandModel::Kml(k@),
            Command::Meta(m) => CommandModel::Meta(m@),
        }
    }
}

} // verus!
