//! The change-request store: parsing change-request documents, classifying
//! their nodes into severities and changelog categories, and filtering
//! root-scoped documents down to the nodes that apply to one target package.
//!
//! A document holds an ordered sequence of nodes. Each node's name is its
//! severity keyword, its `type` property names the changelog category, its
//! optional `package` property scopes it to one package, and its first
//! positional argument is the description. Unknown severities or categories
//! fail the whole operation: malformed change requests never silently lose
//! information.

use vstd::prelude::*;
use vstd::string::StringExecFns;

use crate::error::Error;
use crate::strutil::str_eq;
use crate::version::Magnitude;

verus! {

/// A property or argument of a change-request node: absent, present but not
/// a string, or a string.
#[derive(Debug, PartialEq, Eq)]
pub enum Attr {
    Missing,
    NonString,
    Text(String),
}

/// What one change-request node carries: its severity keyword (the node
/// name), its `package` scope, its `type` property and its first positional
/// argument (the description).
#[derive(Debug, PartialEq, Eq)]
pub struct NodeData {
    pub severity: String,
    pub package: Attr,
    pub category: Attr,
    pub arg: Attr,
}

/// The severity keyword of a change-request node.
#[derive(Clone, Copy, PartialEq, Eq, Structural, Debug)]
pub enum Severity {
    Major,
    Minor,
    Patch,
}

/// The changelog category of a change-request node, in canonical render
/// order.
#[derive(Clone, Copy, PartialEq, Eq, Structural, Debug)]
pub enum Category {
    Added,
    Changed,
    Deprecated,
    Removed,
    Fixed,
    Security,
}

/// A classified change: severity, category and description.
#[derive(Debug, PartialEq, Eq)]
pub struct Change {
    pub severity: Severity,
    pub category: Category,
    pub description: String,
}

impl Clone for Change {
    fn clone(&self) -> (r: Self)
        ensures
            r == *self,
    {
        Change {
            severity: self.severity,
            category: self.category,
            description: self.description.clone(),
        }
    }
}

// ---------------------------------------------------------------------------
// Trusted view of the kdl crate.
// ---------------------------------------------------------------------------

#[verifier::external_type_specification]
#[verifier::external_body]
pub struct ExKdlDocument(kdl::KdlDocument);

#[verifier::external_type_specification]
#[verifier::external_body]
pub struct ExKdlError(kdl::KdlError);

/// The node records a parsed change-request document holds.
pub uninterp spec fn doc_nodes(d: kdl::KdlDocument) -> Seq<NodeData>;

/// The node records the kdl parser finds in a text; parsing is a function of
/// the text alone.
pub uninterp spec fn kdl_nodes_of(text: Seq<char>) -> Seq<NodeData>;

/// Whether the kdl parser accepts a text; acceptance is a function of the
/// text alone.
pub uninterp spec fn kdl_parses(text: Seq<char>) -> bool;

/// The rendering of a parsed document, original formatting preserved.
pub uninterp spec fn kdl_render_of(d: kdl::KdlDocument) -> Seq<char>;

/// Relies on str::parse::<kdl::KdlDocument> (KdlDocument's FromStr): parses a
/// change-request document, succeeding exactly on the texts the kdl grammar
/// accepts.
#[verifier::external_body]
fn kdl_parse(text: &str) -> (r: Result<kdl::KdlDocument, kdl::KdlError>)
    ensures
        r is Ok <==> kdl_parses(text@),
        r matches Ok(d) ==> doc_nodes(d) == kdl_nodes_of(text@),
{
    text.parse::<kdl::KdlDocument>()
}

/// Relies on KdlDocument::nodes, KdlNode::name and KdlNode::get: hands out
/// each node's name, `package` and `type` properties and first positional
/// argument, as plain records in document order.
#[verifier::external_body]
fn kdl_records(d: &kdl::KdlDocument) -> (r: Vec<NodeData>)
    ensures
        r@ == doc_nodes(*d),
{
    let attr = |e: Option<&kdl::KdlEntry>| match e {
        None => Attr::Missing,
        Some(e) => match e.value().as_string() {
            Some(s) => Attr::Text(s.to_string()),
            None => Attr::NonString,
        },
    };
    d.nodes().iter().map(|n| NodeData {
        severity: n.name().value().to_string(),
        package: attr(n.get("package")),
        category: attr(n.get("type")),
        arg: attr(n.get(0)),
    }).collect()
}

/// Relies on KdlDocument::nodes_mut and Vec::remove: removes the node at the
/// given position.
#[verifier::external_body]
fn kdl_remove_node(d: &mut kdl::KdlDocument, i: usize)
    requires
        i < doc_nodes(*old(d)).len(),
    ensures
        doc_nodes(*final(d)) == doc_nodes(*old(d)).remove(i as int),
{
    d.nodes_mut().remove(i);
}

/// Relies on KdlDocument's Display: renders the document back to text,
/// preserving the formatting of the remaining nodes.
#[verifier::external_body]
fn kdl_render(d: &kdl::KdlDocument) -> (r: String)
    ensures
        r@ == kdl_render_of(*d),
{
    d.to_string()
}

/// Parses a change-request document: succeeds exactly on the texts the kdl
/// grammar accepts; malformed text is a fatal parse error.
pub fn parse_changeset(text: &str) -> (r: Result<kdl::KdlDocument, Error>)
    ensures
        r is Ok <==> kdl_parses(text@),
        r matches Ok(d) ==> doc_nodes(d) == kdl_nodes_of(text@),
        r matches Err(e) ==> e matches Error::ChangeRequestParse(m) && m@
            == "could not parse changeset document"@,
{
    match kdl_parse(text) {
        Ok(d) => Ok(d),
        Err(_) => Err(
            Error::ChangeRequestParse(String::from_str("could not parse changeset document")),
        ),
    }
}

/// The records of a parsed document, in document order.
pub fn changeset_nodes(doc: &kdl::KdlDocument) -> (r: Vec<NodeData>)
    ensures
        r@ == doc_nodes(*doc),
{
    kdl_records(doc)
}

// ---------------------------------------------------------------------------
// Classification.
// ---------------------------------------------------------------------------

/// The severity a node name denotes, if any.
pub open spec fn spec_severity(name: Seq<char>) -> Option<Severity> {
    if name == "major"@ {
        Some(Severity::Major)
    } else if name == "minor"@ {
        Some(Severity::Minor)
    } else if name == "patch"@ {
        Some(Severity::Patch)
    } else {
        None
    }
}

/// The category a `type` property denotes, if any.
pub open spec fn spec_category(s: Seq<char>) -> Option<Category> {
    if s == "added"@ {
        Some(Category::Added)
    } else if s == "changed"@ {
        Some(Category::Changed)
    } else if s == "deprecated"@ {
        Some(Category::Deprecated)
    } else if s == "removed"@ {
        Some(Category::Removed)
    } else if s == "fixed"@ {
        Some(Category::Fixed)
    } else if s == "security"@ {
        Some(Category::Security)
    } else {
        None
    }
}

/// Classifies one node. `Ok(None)` is a node with no description argument,
/// which is skipped; every malformed node is a fatal error, carrying the
/// message the error must report.
pub open spec fn spec_classify(n: NodeData) -> Result<Option<Change>, Seq<char>> {
    match n.arg {
        Attr::Missing => Ok(None),
        _ => match spec_severity(n.severity@) {
            None => Err("unknown keyword "@ + n.severity@),
            Some(sev) => match n.category {
                Attr::Missing => Err("change type (added, changed, etc.) must be specified"@),
                Attr::NonString => Err("change type must be a string"@),
                Attr::Text(c) => match spec_category(c@) {
                    None => Err("unknown change type "@ + c@),
                    Some(cat) => match n.arg {
                        Attr::Text(desc) => Ok(
                            Some(Change { severity: sev, category: cat, description: desc }),
                        ),
                        _ => Err("description must be a string"@),
                    },
                },
            },
        },
    }
}

fn severity_of(name: &String) -> (r: Option<Severity>)
    ensures
        r == spec_severity(name@),
{
    if str_eq(name.as_str(), "major") {
        Some(Severity::Major)
    } else if str_eq(name.as_str(), "minor") {
        Some(Severity::Minor)
    } else if str_eq(name.as_str(), "patch") {
        Some(Severity::Patch)
    } else {
        None
    }
}

fn category_of(s: &String) -> (r: Option<Category>)
    ensures
        r == spec_category(s@),
{
    if str_eq(s.as_str(), "added") {
        Some(Category::Added)
    } else if str_eq(s.as_str(), "changed") {
        Some(Category::Changed)
    } else if str_eq(s.as_str(), "deprecated") {
        Some(Category::Deprecated)
    } else if str_eq(s.as_str(), "removed") {
        Some(Category::Removed)
    } else if str_eq(s.as_str(), "fixed") {
        Some(Category::Fixed)
    } else if str_eq(s.as_str(), "security") {
        Some(Category::Security)
    } else {
        None
    }
}

/// Classifies one node, by `spec_classify`.
pub fn classify_node(n: &NodeData) -> (r: Result<Option<Change>, Error>)
    ensures
        match spec_classify(*n) {
            Ok(c) => r matches Ok(rc) && rc == c,
            Err(m) => r matches Err(e) && e matches Error::ChangeRequestParse(mm) && mm@ == m,
        },
{
    match &n.arg {
        Attr::Missing => Ok(None),
        _ => match severity_of(&n.severity) {
            None => {
                let mut m = String::from_str("unknown keyword ");
                m.append(n.severity.as_str());
                Err(Error::ChangeRequestParse(m))
            },
            Some(sev) => match &n.category {
                Attr::Missing => Err(
                    Error::ChangeRequestParse(
                        String::from_str("change type (added, changed, etc.) must be specified"),
                    ),
                ),
                Attr::NonString => Err(
                    Error::ChangeRequestParse(String::from_str("change type must be a string")),
                ),
                Attr::Text(c) => match category_of(c) {
                    None => {
                        let mut m = String::from_str("unknown change type ");
                        m.append(c.as_str());
                        Err(Error::ChangeRequestParse(m))
                    },
                    Some(cat) => match &n.arg {
                        Attr::Text(desc) => Ok(
                            Some(
                                Change { severity: sev, category: cat, description: desc.clone() },
                            ),
                        ),
                        _ => Err(
                            Error::ChangeRequestParse(
                                String::from_str("description must be a string"),
                            ),
                        ),
                    },
                },
            },
        },
    }
}

// ---------------------------------------------------------------------------
// Bump magnitude.
// ---------------------------------------------------------------------------

/// The magnitude one severity contributes.
pub open spec fn sev_magnitude(s: Severity) -> Magnitude {
    match s {
        Severity::Major => Magnitude::Major,
        Severity::Minor => Magnitude::Minor,
        Severity::Patch => Magnitude::Patch,
    }
}

/// The precedence rank of a magnitude: `major > minor > patch > none`.
pub open spec fn mag_rank(m: Magnitude) -> int {
    match m {
        Magnitude::NoBump => 0,
        Magnitude::Patch => 1,
        Magnitude::Minor => 2,
        Magnitude::Major => 3,
    }
}

/// The larger of two magnitudes.
pub open spec fn mag_max(a: Magnitude, b: Magnitude) -> Magnitude {
    if mag_rank(a) >= mag_rank(b) {
        a
    } else {
        b
    }
}

/// The highest severity in a sequence, as a magnitude; `NoBump` when empty.
pub open spec fn spec_mag_of(s: Seq<Severity>) -> Magnitude
    decreases s.len(),
{
    if s.len() == 0 {
        Magnitude::NoBump
    } else {
        mag_max(spec_mag_of(s.drop_last()), sev_magnitude(s.last()))
    }
}

/// The severities of a sequence of changes.
pub open spec fn severities_of(cs: Seq<Change>) -> Seq<Severity> {
    cs.map_values(|c: Change| c.severity)
}

/// The bump magnitude of a set of classified changes: the highest severity
/// present, never an accumulation.
pub fn max_severity(changes: &Vec<Change>) -> (m: Magnitude)
    ensures
        m == spec_mag_of(severities_of(changes@)),
{
    let mut m = Magnitude::NoBump;
    let mut i: usize = 0;
    while i < changes.len()
        invariant
            0 <= i <= changes@.len(),
            m == spec_mag_of(severities_of(changes@.subrange(0, i as int))),
        decreases changes@.len() - i,
    {
        let next = match changes[i].severity {
            Severity::Major => Magnitude::Major,
            Severity::Minor => {
                if m == Magnitude::NoBump || m == Magnitude::Patch {
                    Magnitude::Minor
                } else {
                    m
                }
            },
            Severity::Patch => {
                if m == Magnitude::NoBump {
                    Magnitude::Patch
                } else {
                    m
                }
            },
        };
        proof {
            let pre = severities_of(changes@.subrange(0, i as int));
            let post = severities_of(changes@.subrange(0, i + 1));
            assert(changes@.subrange(0, i + 1).drop_last() =~= changes@.subrange(0, i as int));
            assert(post.drop_last() =~= pre);
            assert(post.last() == changes@[i as int].severity);
        }
        m = next;
        i = i + 1;
    }
    proof {
        assert(changes@.subrange(0, changes@.len() as int) =~= changes@);
    }
    m
}

// ---------------------------------------------------------------------------
// Root-scoped filtering.
// ---------------------------------------------------------------------------

/// Whether a node whose canonicalized `package` scope is `c` applies to the
/// package at `target`: the scope is present and names that location.
pub open spec fn node_matches(c: Option<String>, target: Seq<char>) -> bool {
    match c {
        Some(x) => x@ == target,
        None => false,
    }
}

/// The raw `package` scope of each node: the property's text, or nothing
/// when the node carries none. A non-string scope is a fatal error.
pub open spec fn spec_scopes(ns: Seq<NodeData>) -> Result<Seq<Option<String>>, Seq<char>>
    decreases ns.len(),
{
    if ns.len() == 0 {
        Ok(Seq::empty())
    } else {
        match spec_scopes(ns.drop_last()) {
            Err(m) => Err(m),
            Ok(acc) => match ns.last().package {
                Attr::Missing => Ok(acc.push(None)),
                Attr::NonString => Err("package must be a string"@),
                Attr::Text(s) => Ok(acc.push(Some(s))),
            },
        }
    }
}

/// An error met at one node decides the whole scope extraction.
proof fn lemma_scopes_err(ns: Seq<NodeData>, i: int)
    requires
        0 <= i < ns.len(),
        spec_scopes(ns.subrange(0, i)) is Ok,
        ns[i].package is NonString,
    ensures
        spec_scopes(ns) == Err::<Seq<Option<String>>, Seq<char>>("package must be a string"@),
    decreases ns.len(),
{
    if i == ns.len() - 1 {
        assert(ns.drop_last() =~= ns.subrange(0, i));
    } else {
        assert(ns.drop_last().subrange(0, i) =~= ns.subrange(0, i));
        lemma_scopes_err(ns.drop_last(), i);
    }
}

/// Hands out each node's raw `package` scope, for the caller to
/// canonicalize. Fails on a non-string scope.
pub fn package_scopes(doc: &kdl::KdlDocument) -> (r: Result<Vec<Option<String>>, Error>)
    ensures
        match spec_scopes(doc_nodes(*doc)) {
            Ok(sc) => r matches Ok(v) && v@ == sc,
            Err(m) => r matches Err(e) && e matches Error::ChangeRequestParse(mm) && mm@ == m,
        },
{
    let ns = kdl_records(doc);
    let mut out: Vec<Option<String>> = Vec::new();
    let mut i: usize = 0;
    while i < ns.len()
        invariant
            0 <= i <= ns@.len(),
            ns@ == doc_nodes(*doc),
            spec_scopes(ns@.subrange(0, i as int)) == Ok::<Seq<Option<String>>, Seq<char>>(out@),
        decreases ns@.len() - i,
    {
        proof {
            assert(ns@.subrange(0, i + 1).drop_last() =~= ns@.subrange(0, i as int));
            assert(ns@.subrange(0, i + 1).last() == ns@[i as int]);
        }
        match &ns[i].package {
            Attr::Missing => {
                out.push(None);
            },
            Attr::NonString => {
                proof {
                    lemma_scopes_err(ns@, i as int);
                }
                return Err(
                    Error::ChangeRequestParse(String::from_str("package must be a string")),
                );
            },
            Attr::Text(s) => {
                out.push(Some(s.clone()));
            },
        }
        i = i + 1;
    }
    proof {
        assert(ns@.subrange(0, ns@.len() as int) =~= ns@);
    }
    Ok(out)
}

/// The nodes left in a root-scoped document after the nodes matching
/// `target` are taken out.
pub open spec fn spec_remaining(ns: Seq<NodeData>, cs: Seq<Option<String>>, t: Seq<char>) -> Seq<
    NodeData,
>
    decreases ns.len(),
{
    if ns.len() == 0 {
        Seq::empty()
    } else {
        let rest = spec_remaining(ns.drop_last(), cs.drop_last(), t);
        if node_matches(cs[ns.len() - 1], t) {
            rest
        } else {
            rest.push(ns.last())
        }
    }
}

/// The canonicalized scopes of the nodes left in a root-scoped document,
/// aligned with `spec_remaining`.
pub open spec fn spec_remaining_scopes(
    ns: Seq<NodeData>,
    cs: Seq<Option<String>>,
    t: Seq<char>,
) -> Seq<Option<String>>
    decreases ns.len(),
{
    if ns.len() == 0 {
        Seq::empty()
    } else {
        let rest = spec_remaining_scopes(ns.drop_last(), cs.drop_last(), t);
        if node_matches(cs[ns.len() - 1], t) {
            rest
        } else {
            rest.push(cs[ns.len() - 1])
        }
    }
}

/// The nodes of a root-scoped document that match `target`, in order.
pub open spec fn spec_matched(ns: Seq<NodeData>, cs: Seq<Option<String>>, t: Seq<char>) -> Seq<
    NodeData,
>
    decreases ns.len(),
{
    if ns.len() == 0 {
        Seq::empty()
    } else {
        let rest = spec_matched(ns.drop_last(), cs.drop_last(), t);
        if node_matches(cs[ns.len() - 1], t) {
            rest.push(ns.last())
        } else {
            rest
        }
    }
}

/// Whether any node matches `target`.
pub open spec fn spec_any_match(ns: Seq<NodeData>, cs: Seq<Option<String>>, t: Seq<char>) -> bool {
    exists|i: int| 0 <= i < ns.len() && node_matches(cs[i], t)
}

/// The classified changes of the nodes matching `target`, in order; nodes
/// with no description argument are skipped; the first malformed matching
/// node is a fatal error.
pub open spec fn spec_take_changes(ns: Seq<NodeData>, cs: Seq<Option<String>>, t: Seq<char>) -> Result<
    Seq<Change>,
    Seq<char>,
>
    decreases ns.len(),
{
    if ns.len() == 0 {
        Ok(Seq::empty())
    } else {
        match spec_take_changes(ns.drop_last(), cs.drop_last(), t) {
            Err(m) => Err(m),
            Ok(acc) => if !node_matches(cs[ns.len() - 1], t) {
                Ok(acc)
            } else {
                match spec_classify(ns.last()) {
                    Err(m) => Err(m),
                    Ok(Some(c)) => Ok(acc.push(c)),
                    Ok(None) => Ok(acc),
                }
            },
        }
    }
}

/// The classified changes of every node, in order: the package-scoped pass,
/// where all nodes apply unconditionally.
pub open spec fn spec_all_changes(ns: Seq<NodeData>) -> Result<Seq<Change>, Seq<char>>
    decreases ns.len(),
{
    if ns.len() == 0 {
        Ok(Seq::empty())
    } else {
        match spec_all_changes(ns.drop_last()) {
            Err(m) => Err(m),
            Ok(acc) => match spec_classify(ns.last()) {
                Err(m) => Err(m),
                Ok(Some(c)) => Ok(acc.push(c)),
                Ok(None) => Ok(acc),
            },
        }
    }
}

/// What becomes of a root-scoped document after its matching nodes are taken
/// out: untouched when none matched, rewritten with the given text when
/// other packages' nodes remain, deleted when nothing remains.
#[derive(Debug, PartialEq, Eq)]
pub enum DocFate {
    Keep,
    Rewrite(String),
    Delete,
}

/// An error met at one matching node decides the whole root-scoped pass.
proof fn lemma_take_changes_err(ns: Seq<NodeData>, cs: Seq<Option<String>>, t: Seq<char>, i: int)
    requires
        ns.len() == cs.len(),
        0 <= i < ns.len(),
        spec_take_changes(ns.subrange(0, i), cs.subrange(0, i), t) is Ok,
        node_matches(cs[i], t),
        spec_classify(ns[i]) is Err,
    ensures
        spec_take_changes(ns, cs, t) == Err::<Seq<Change>, Seq<char>>(
            spec_classify(ns[i])->Err_0,
        ),
    decreases ns.len(),
{
    if i == ns.len() - 1 {
        assert(ns.drop_last() =~= ns.subrange(0, i));
        assert(cs.drop_last() =~= cs.subrange(0, i));
    } else {
        assert(ns.drop_last().subrange(0, i) =~= ns.subrange(0, i));
        assert(cs.drop_last().subrange(0, i) =~= cs.subrange(0, i));
        lemma_take_changes_err(ns.drop_last(), cs.drop_last(), t, i);
    }
}

/// An error met at one node decides the whole package-scoped pass.
proof fn lemma_all_changes_err(ns: Seq<NodeData>, i: int)
    requires
        0 <= i < ns.len(),
        spec_all_changes(ns.subrange(0, i)) is Ok,
        spec_classify(ns[i]) is Err,
    ensures
        spec_all_changes(ns) == Err::<Seq<Change>, Seq<char>>(spec_classify(ns[i])->Err_0),
    decreases ns.len(),
{
    if i == ns.len() - 1 {
        assert(ns.drop_last() =~= ns.subrange(0, i));
    } else {
        assert(ns.drop_last().subrange(0, i) =~= ns.subrange(0, i));
        lemma_all_changes_err(ns.drop_last(), i);
    }
}

/// With no matching node, filtering keeps every node.
proof fn lemma_remaining_all_kept(ns: Seq<NodeData>, cs: Seq<Option<String>>, t: Seq<char>)
    requires
        ns.len() == cs.len(),
        forall|i: int| 0 <= i < ns.len() ==> !node_matches(cs[i], t),
    ensures
        spec_remaining(ns, cs, t) == ns,
    decreases ns.len(),
{
    if ns.len() > 0 {
        lemma_remaining_all_kept(ns.drop_last(), cs.drop_last(), t);
        assert(spec_remaining(ns, cs, t) =~= ns);
    }
}

/// The root-scoped pass over one document: takes out the nodes whose
/// canonicalized scope (`canon`, aligned with the document's nodes) names
/// `target`, classifies them, and says what must become of the document. On
/// error nothing is touched.
pub fn take_for_target(
    doc: &mut kdl::KdlDocument,
    canon: &Vec<Option<String>>,
    target: &String,
) -> (r: Result<(Vec<Change>, DocFate), Error>)
    requires
        canon@.len() == doc_nodes(*old(doc)).len(),
    ensures
        match r {
            Ok(p) => {
                &&& spec_take_changes(doc_nodes(*old(doc)), canon@, target@) == Ok::<
                    Seq<Change>,
                    Seq<char>,
                >(p.0@)
                &&& doc_nodes(*final(doc)) == spec_remaining(
                    doc_nodes(*old(doc)),
                    canon@,
                    target@,
                )
                &&& match p.1 {
                    DocFate::Keep => !spec_any_match(doc_nodes(*old(doc)), canon@, target@)
                        && *final(doc) == *old(doc),
                    DocFate::Delete => spec_any_match(doc_nodes(*old(doc)), canon@, target@)
                        && spec_remaining(doc_nodes(*old(doc)), canon@, target@).len() == 0,
                    DocFate::Rewrite(text) => spec_any_match(doc_nodes(*old(doc)), canon@, target@)
                        && spec_remaining(doc_nodes(*old(doc)), canon@, target@).len() > 0 && text@
                        == kdl_render_of(*final(doc)),
                }
            },
            Err(e) => {
                &&& *final(doc) == *old(doc)
                &&& spec_take_changes(doc_nodes(*old(doc)), canon@, target@) is Err
                &&& e matches Error::ChangeRequestParse(mm) && mm@ == spec_take_changes(
                    doc_nodes(*old(doc)),
                    canon@,
                    target@,
                )->Err_0
            },
        },
{
    let ns = kdl_records(doc);
    let ghost orig = doc_nodes(*doc);
    let n = ns.len();

    // First pass: classify the matching nodes; nothing is touched on error.
    let mut changes: Vec<Change> = Vec::new();
    let mut found = false;
    let mut i: usize = 0;
    while i < n
        invariant
            0 <= i <= n,
            n == ns@.len(),
            ns@ == orig,
            orig == doc_nodes(*old(doc)),
            *doc == *old(doc),
            canon@.len() == n,
            spec_take_changes(orig.subrange(0, i as int), canon@.subrange(0, i as int), target@)
                == Ok::<Seq<Change>, Seq<char>>(changes@),
            found == spec_any_match(orig.subrange(0, i as int), canon@.subrange(0, i as int), target@),
        decreases n - i,
    {
        proof {
            assert(orig.subrange(0, i + 1).drop_last() =~= orig.subrange(0, i as int));
            assert(canon@.subrange(0, i + 1).drop_last() =~= canon@.subrange(0, i as int));
            assert(orig.subrange(0, i + 1).last() == orig[i as int]);
            assert(canon@.subrange(0, i + 1)[i as int] == canon@[i as int]);
        }
        let matches_here = match &canon[i] {
            Some(x) => str_eq(x.as_str(), target.as_str()),
            None => false,
        };
        if matches_here {
            match classify_node(&ns[i]) {
                Err(e) => {
                    proof {
                        lemma_take_changes_err(orig, canon@, target@, i as int);
                    }
                    return Err(e);
                },
                Ok(Some(c)) => {
                    changes.push(c);
                },
                Ok(None) => {},
            }
            found = true;
        }
        proof {
            if !matches_here {
                assert(spec_any_match(
                    orig.subrange(0, i + 1),
                    canon@.subrange(0, i + 1),
                    target@,
                ) == spec_any_match(orig.subrange(0, i as int), canon@.subrange(0, i as int), target@))
                    by {
                    let a = orig.subrange(0, i + 1);
                    let b = canon@.subrange(0, i + 1);
                    if spec_any_match(a, b, target@) {
                        let w = choose|w: int| 0 <= w < a.len() && node_matches(b[w], target@);
                        if w == i {
                            assert(false);
                        } else {
                            assert(node_matches(canon@.subrange(0, i as int)[w], target@));
                        }
                    }
                }
            }
        }
        i = i + 1;
    }
    proof {
        assert(orig.subrange(0, n as int) =~= orig);
        assert(canon@.subrange(0, n as int) =~= canon@);
    }

    if !found {
        proof {
            lemma_remaining_all_kept(orig, canon@, target@);
        }
        return Ok((changes, DocFate::Keep));
    }

    // Second pass: strip the matching nodes, keeping the others in order.
    let mut kept: usize = 0;
    let mut i: usize = 0;
    while i < n
        invariant
            0 <= i <= n,
            n == ns@.len(),
            ns@ == orig,
            orig == doc_nodes(*old(doc)),
            canon@.len() == n,
            kept <= i,
            kept == spec_remaining(
                orig.subrange(0, i as int),
                canon@.subrange(0, i as int),
                target@,
            ).len(),
            doc_nodes(*doc) == spec_remaining(
                orig.subrange(0, i as int),
                canon@.subrange(0, i as int),
                target@,
            ) + orig.subrange(i as int, n as int),
        decreases n - i,
    {
        let ghost pre = spec_remaining(orig.subrange(0, i as int), canon@.subrange(0, i as int), target@);
        proof {
            assert(orig.subrange(0, i + 1).drop_last() =~= orig.subrange(0, i as int));
            assert(canon@.subrange(0, i + 1).drop_last() =~= canon@.subrange(0, i as int));
            assert(orig.subrange(0, i + 1).last() == orig[i as int]);
            assert(canon@.subrange(0, i + 1)[i as int] == canon@[i as int]);
        }
        let matches_here = match &canon[i] {
            Some(x) => str_eq(x.as_str(), target.as_str()),
            None => false,
        };
        if matches_here {
            proof {
                assert(doc_nodes(*doc).len() == pre.len() + (n - i));
            }
            kdl_remove_node(doc, kept);
            proof {
                assert(doc_nodes(*doc) =~= pre + orig.subrange(i + 1, n as int)) by {
                    let before = pre + orig.subrange(i as int, n as int);
                    assert(before.remove(kept as int) =~= pre + orig.subrange(i + 1, n as int));
                }
            }
        } else {
            proof {
                assert(spec_remaining(
                    orig.subrange(0, i + 1),
                    canon@.subrange(0, i + 1),
                    target@,
                ) =~= pre.push(orig[i as int]));
                assert(pre + orig.subrange(i as int, n as int) =~= pre.push(orig[i as int])
                    + orig.subrange(i + 1, n as int));
            }
            kept = kept + 1;
        }
        i = i + 1;
    }
    proof {
        assert(orig.subrange(0, n as int) =~= orig);
        assert(canon@.subrange(0, n as int) =~= canon@);
        assert(doc_nodes(*doc) =~= spec_remaining(orig, canon@, target@)) by {
            assert(orig.subrange(n as int, n as int) =~= Seq::<NodeData>::empty());
            assert(spec_remaining(orig, canon@, target@) + Seq::<NodeData>::empty()
                =~= spec_remaining(orig, canon@, target@));
        }
    }

    if kept == 0 {
        Ok((changes, DocFate::Delete))
    } else {
        let text = kdl_render(doc);
        Ok((changes, DocFate::Rewrite(text)))
    }
}

/// The package-scoped pass over one document: classifies every node; the
/// document is consumed by the caller once a version is resolved.
pub fn take_all(doc: &kdl::KdlDocument) -> (r: Result<Vec<Change>, Error>)
    ensures
        match spec_all_changes(doc_nodes(*doc)) {
            Ok(cs) => r matches Ok(v) && v@ == cs,
            Err(m) => r matches Err(e) && e matches Error::ChangeRequestParse(mm) && mm@ == m,
        },
{
    let ns = kdl_records(doc);
    let n = ns.len();
    let mut changes: Vec<Change> = Vec::new();
    let mut i: usize = 0;
    while i < n
        invariant
            0 <= i <= n,
            n == ns@.len(),
            ns@ == doc_nodes(*doc),
            spec_all_changes(ns@.subrange(0, i as int)) == Ok::<Seq<Change>, Seq<char>>(changes@),
        decreases n - i,
    {
        proof {
            assert(ns@.subrange(0, i + 1).drop_last() =~= ns@.subrange(0, i as int));
            assert(ns@.subrange(0, i + 1).last() == ns@[i as int]);
        }
        match classify_node(&ns[i]) {
            Err(e) => {
                proof {
                    lemma_all_changes_err(ns@, i as int);
                }
                return Err(e);
            },
            Ok(Some(c)) => {
                changes.push(c);
            },
            Ok(None) => {},
        }
        i = i + 1;
    }
    proof {
        assert(ns@.subrange(0, n as int) =~= ns@);
    }
    Ok(changes)
}

} // verus!
