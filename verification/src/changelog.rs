//! The changelog accumulator: buckets classified change descriptions into six
//! canonical categories, renders a dated markdown section, parses such a
//! section back, and merges a new section into an existing changelog document
//! right after the preamble, keeping sections most-recent-first.

use vstd::prelude::*;
use vstd::string::StrSliceExecFns;
use vstd::string::StringExecFns;

use crate::changeset::{Category, Change};
use crate::strutil::{has_prefix, lemma_line_end_from_scan, spec_line_end, spec_trim, str_eq, trim_str};

verus! {

/// The six category buckets of one changelog section, each a sequence of
/// description texts in insertion order.
#[verifier::ext_equal]
pub ghost struct Buckets {
    pub added: Seq<Seq<char>>,
    pub changed: Seq<Seq<char>>,
    pub deprecated: Seq<Seq<char>>,
    pub removed: Seq<Seq<char>>,
    pub fixed: Seq<Seq<char>>,
    pub security: Seq<Seq<char>>,
}

/// Six empty buckets.
pub open spec fn empty_buckets() -> Buckets {
    Buckets {
        added: Seq::empty(),
        changed: Seq::empty(),
        deprecated: Seq::empty(),
        removed: Seq::empty(),
        fixed: Seq::empty(),
        security: Seq::empty(),
    }
}

/// `b` with `d` appended to the bucket of `cat`.
pub open spec fn spec_push(b: Buckets, cat: Category, d: Seq<char>) -> Buckets {
    match cat {
        Category::Added => Buckets { added: b.added.push(d), ..b },
        Category::Changed => Buckets { changed: b.changed.push(d), ..b },
        Category::Deprecated => Buckets { deprecated: b.deprecated.push(d), ..b },
        Category::Removed => Buckets { removed: b.removed.push(d), ..b },
        Category::Fixed => Buckets { fixed: b.fixed.push(d), ..b },
        Category::Security => Buckets { security: b.security.push(d), ..b },
    }
}

/// Accumulates classified change descriptions by category.
pub struct Changelog {
    pub added: Vec<String>,
    pub changed: Vec<String>,
    pub deprecated: Vec<String>,
    pub removed: Vec<String>,
    pub fixed: Vec<String>,
    pub security: Vec<String>,
}

impl View for Changelog {
    type V = Buckets;

    open spec fn view(&self) -> Buckets {
        Buckets {
            added: self.added.deep_view(),
            changed: self.changed.deep_view(),
            deprecated: self.deprecated.deep_view(),
            removed: self.removed.deep_view(),
            fixed: self.fixed.deep_view(),
            security: self.security.deep_view(),
        }
    }
}

impl Changelog {
    /// An empty accumulator.
    pub fn new() -> (r: Self)
        ensures
            r@ == empty_buckets(),
    {
        let r = Changelog {
            added: Vec::new(),
            changed: Vec::new(),
            deprecated: Vec::new(),
            removed: Vec::new(),
            fixed: Vec::new(),
            security: Vec::new(),
        };
        proof {
            assert(r@ =~~= empty_buckets());
        }
        r
    }

    /// Buckets one classified change's description under its category.
    pub fn push(&mut self, change: &Change)
        ensures
            final(self)@ == spec_push(old(self)@, change.category, change.description@),
    {
        match change.category {
            Category::Added => self.added.push(change.description.clone()),
            Category::Changed => self.changed.push(change.description.clone()),
            Category::Deprecated => self.deprecated.push(change.description.clone()),
            Category::Removed => self.removed.push(change.description.clone()),
            Category::Fixed => self.fixed.push(change.description.clone()),
            Category::Security => self.security.push(change.description.clone()),
        }
        proof {
            assert(self@ =~~= spec_push(old(self)@, change.category, change.description@));
        }
    }

    /// Renders the section for `version` dated `date`: the header line, then
    /// only the non-empty categories, in canonical order.
    pub fn markdown(&self, version: &String, date: &String) -> (r: String)
        ensures
            r@ == spec_section(version@, date@, self@),
    {
        let mut s = String::from_str("## [");
        s.append(version.as_str());
        s.append("] - ");
        s.append(date.as_str());
        s.append("\n\n");
        let b = cat_block("Added", &self.added);
        s.append(b.as_str());
        let b = cat_block("Changed", &self.changed);
        s.append(b.as_str());
        let b = cat_block("Deprecated", &self.deprecated);
        s.append(b.as_str());
        let b = cat_block("Removed", &self.removed);
        s.append(b.as_str());
        let b = cat_block("Fixed", &self.fixed);
        s.append(b.as_str());
        let b = cat_block("Security", &self.security);
        s.append(b.as_str());
        proof {
            assert(s@ =~= spec_section(version@, date@, self@));
        }
        s
    }

    /// Renders the section for `version` dated today.
    pub fn markdown_now(&self, version: &String) -> (r: String)
        ensures
            exists|d: Seq<char>| r@ == spec_section(version@, d, self@),
    {
        let date = today_ymd();
        let r = self.markdown(version, &date);
        proof {
            assert(r@ == spec_section(version@, date@, self@));
        }
        r
    }
}

/// Relies on chrono::Utc::now, formatted as year-month-day: the current date.
#[verifier::external_body]
fn today_ymd() -> String {
    chrono::Utc::now().format("%Y-%m-%d").to_string()
}

/// The item lines of one category: `- ` before each description.
pub open spec fn spec_items_text(items: Seq<Seq<char>>) -> Seq<char>
    decreases items.len(),
{
    if items.len() == 0 {
        Seq::empty()
    } else {
        "- "@ + items[0] + "\n"@ + spec_items_text(items.skip(1))
    }
}

/// One category block: nothing when the bucket is empty, else its heading,
/// a blank line, the item lines and a closing blank line.
pub open spec fn spec_cat_text(title: Seq<char>, items: Seq<Seq<char>>) -> Seq<char> {
    if items.len() == 0 {
        Seq::empty()
    } else {
        "### "@ + title + "\n\n"@ + spec_items_text(items) + "\n"@
    }
}

/// The category blocks of a section, in canonical order.
pub open spec fn spec_body(b: Buckets) -> Seq<char> {
    spec_cat_text("Added"@, b.added) + spec_cat_text("Changed"@, b.changed) + spec_cat_text(
        "Deprecated"@,
        b.deprecated,
    ) + spec_cat_text("Removed"@, b.removed) + spec_cat_text("Fixed"@, b.fixed) + spec_cat_text(
        "Security"@,
        b.security,
    )
}

/// A full rendered section: `## [<version>] - <date>`, a blank line, then the
/// category blocks.
pub open spec fn spec_section(version: Seq<char>, date: Seq<char>, b: Buckets) -> Seq<char> {
    "## ["@ + version + "] - "@ + date + "\n\n"@ + spec_body(b)
}

fn items_block(items: &Vec<String>, from: usize) -> (r: String)
    requires
        from <= items@.len(),
    ensures
        r@ == spec_items_text(items.deep_view().skip(from as int)),
    decreases items@.len() - from,
{
    if from == items.len() {
        proof {
            assert(items.deep_view().skip(from as int) =~= Seq::<Seq<char>>::empty());
        }
        String::new()
    } else {
        let mut s = String::from_str("- ");
        s.append(items[from].as_str());
        s.append("\n");
        let rest = items_block(items, from + 1);
        s.append(rest.as_str());
        proof {
            let dv = items.deep_view().skip(from as int);
            assert(dv[0] == items@[from as int]@);
            assert(dv.skip(1) =~= items.deep_view().skip(from + 1));
            assert(s@ =~= spec_items_text(dv));
        }
        s
    }
}

fn cat_block(title: &str, items: &Vec<String>) -> (r: String)
    ensures
        r@ == spec_cat_text(title@, items.deep_view()),
{
    if items.len() == 0 {
        String::new()
    } else {
        let mut s = String::from_str("### ");
        s.append(title);
        s.append("\n\n");
        let body = items_block(items, 0);
        s.append(body.as_str());
        s.append("\n");
        proof {
            assert(items.deep_view().skip(0) =~= items.deep_view());
            assert(s@ =~= spec_cat_text(title@, items.deep_view()));
        }
        s
    }
}

// ---------------------------------------------------------------------------
// Parsing a rendered section back into buckets.
// ---------------------------------------------------------------------------

/// What one line does to the parser state: a known category heading selects
/// its bucket, an item line `- <text>` appends to the selected bucket, any
/// other line is ignored.
pub open spec fn spec_handle_line(line: Seq<char>, cur: Option<Category>, acc: Buckets) -> (
    Option<Category>,
    Buckets,
) {
    if line == "### Added"@ {
        (Some(Category::Added), acc)
    } else if line == "### Changed"@ {
        (Some(Category::Changed), acc)
    } else if line == "### Deprecated"@ {
        (Some(Category::Deprecated), acc)
    } else if line == "### Removed"@ {
        (Some(Category::Removed), acc)
    } else if line == "### Fixed"@ {
        (Some(Category::Fixed), acc)
    } else if line == "### Security"@ {
        (Some(Category::Security), acc)
    } else if line.len() >= 2 && line.subrange(0, 2) == "- "@ && cur is Some {
        (cur, spec_push(acc, cur->0, line.skip(2)))
    } else {
        (cur, acc)
    }
}

/// Parses section text line by line, starting from the given state.
pub open spec fn spec_parse_body(s: Seq<char>, cur: Option<Category>, acc: Buckets) -> Buckets
    decreases s.len(),
{
    if s.len() == 0 {
        acc
    } else {
        let e = spec_line_end(s);
        if 0 <= e <= s.len() {
            let line = s.subrange(0, e);
            let rest = if e < s.len() {
                s.skip(e + 1)
            } else {
                Seq::empty()
            };
            let st = spec_handle_line(line, cur, acc);
            spec_parse_body(rest, st.0, st.1)
        } else {
            acc
        }
    }
}

/// The category groupings a section text denotes.
pub open spec fn spec_parse_section(s: Seq<char>) -> Buckets {
    spec_parse_body(s, None, empty_buckets())
}

fn handle_line(line: &str, cur: Option<Category>, chl: &mut Changelog) -> (r: Option<Category>)
    ensures
        (r, final(chl)@) == spec_handle_line(line@, cur, old(chl)@),
{
    if str_eq(line, "### Added") {
        Some(Category::Added)
    } else if str_eq(line, "### Changed") {
        Some(Category::Changed)
    } else if str_eq(line, "### Deprecated") {
        Some(Category::Deprecated)
    } else if str_eq(line, "### Removed") {
        Some(Category::Removed)
    } else if str_eq(line, "### Fixed") {
        Some(Category::Fixed)
    } else if str_eq(line, "### Security") {
        Some(Category::Security)
    } else if has_prefix(line, "- ") && cur.is_some() {
        proof {
            reveal_strlit("- ");
        }
        let n = line.unicode_len();
        let desc = line.substring_char(2, n).to_owned();
        let cat = match cur {
            Some(c) => c,
            None => Category::Added,
        };
        let change = Change {
            severity: crate::changeset::Severity::Patch,
            category: cat,
            description: desc,
        };
        chl.push(&change);
        proof {
            assert(line@.subrange(0, 2) =~= "- "@);
            assert(change.description@ =~= line@.skip(2));
        }
        cur
    } else {
        cur
    }
}

/// Parses a rendered changelog section back into its category groupings:
/// category order is canonical, item order within a category is insertion
/// order.
pub fn parse_section(text: &String) -> (r: Changelog)
    ensures
        r@ == spec_parse_section(text@),
{
    let s = text.as_str();
    let n = s.unicode_len();
    let mut chl = Changelog::new();
    let mut cur: Option<Category> = None;
    let mut p: usize = 0;
    proof {
        assert(text@.skip(0) =~= text@);
    }
    while p < n
        invariant
            0 <= p <= n,
            n == text@.len(),
            s@ == text@,
            spec_parse_body(text@.skip(p as int), cur, chl@) == spec_parse_section(text@),
        decreases n - p,
    {
        let mut j: usize = p;
        while j < n && s.get_char(j) != '\n'
            invariant
                p <= j <= n,
                n == s@.len(),
                forall|k: int| p <= k < j ==> s@[k] != '\n',
            decreases n - j,
        {
            j = j + 1;
        }
        proof {
            let tail = text@.skip(p as int);
            assert forall|k: int| 0 <= k < j - p implies tail[k] != '\n' by {
                assert(tail[k] == text@[p + k]);
            }
            if (j as int) < n {
                assert(tail[j - p] == text@[j as int]);
            }
            lemma_line_end_from_scan(tail, j - p);
        }
        let line = s.substring_char(p, j);
        let ghost tail = text@.skip(p as int);
        proof {
            assert(line@ =~= tail.subrange(0, spec_line_end(tail)));
        }
        cur = handle_line(line, cur, &mut chl);
        let next = if j < n {
            j + 1
        } else {
            n
        };
        proof {
            if (j as int) < n {
                assert(tail.skip(j - p + 1) =~= text@.skip(j + 1));
            } else {
                assert(text@.skip(n as int) =~= Seq::<char>::empty());
            }
        }
        p = next;
    }
    proof {
        assert(text@.skip(n as int) =~= Seq::<char>::empty());
    }
    chl
}

// ---------------------------------------------------------------------------
// Merging a section into an existing changelog document.
// ---------------------------------------------------------------------------

/// The index of the first `##` marker in `s`, if any.
pub open spec fn first_marker(s: Seq<char>) -> Option<int>
    decreases s.len(),
{
    if s.len() < 2 {
        None
    } else if s[0] == '#' && s[1] == '#' {
        Some(0)
    } else {
        match first_marker(s.skip(1)) {
            Some(i) => Some(i + 1),
            None => None,
        }
    }
}

pub proof fn lemma_first_marker_bounds(s: Seq<char>)
    ensures
        match first_marker(s) {
            Some(i) => 0 <= i < s.len() - 1 && s[i] == '#' && s[i + 1] == '#' && (forall|j: int|
                0 <= j < i ==> !(#[trigger] s[j] == '#' && s[j + 1] == '#')),
            None => forall|j: int| 0 <= j < s.len() - 1 ==> !(#[trigger] s[j] == '#' && s[j + 1]
                == '#'),
        },
    decreases s.len(),
{
    if s.len() >= 2 && !(s[0] == '#' && s[1] == '#') {
        let t = s.skip(1);
        lemma_first_marker_bounds(t);
        match first_marker(t) {
            Some(i) => {
                assert(t[i] == s[i + 1] && t[i + 1] == s[i + 2]);
                assert forall|j: int| 0 <= j < i + 1 implies !(#[trigger] s[j] == '#' && s[j + 1]
                    == '#') by {
                    if j > 0 {
                        assert(!(t[j - 1] == '#' && t[j] == '#'));
                        assert(t[j - 1] == s[j] && t[j] == s[j + 1]);
                    }
                }
            },
            None => {
                assert forall|j: int| 0 <= j < s.len() - 1 implies !(#[trigger] s[j] == '#' && s[j
                    + 1] == '#') by {
                    if j > 0 {
                        assert(!(t[j - 1] == '#' && t[j] == '#'));
                        assert(t[j - 1] == s[j] && t[j] == s[j + 1]);
                    }
                }
            },
        }
    }
}

pub proof fn lemma_first_marker_found(s: Seq<char>, i: int)
    requires
        0 <= i < s.len() - 1,
        s[i] == '#' && s[i + 1] == '#',
        forall|j: int| 0 <= j < i ==> !(#[trigger] s[j] == '#' && s[j + 1] == '#'),
    ensures
        first_marker(s) == Some(i),
    decreases i,
{
    if i > 0 {
        lemma_first_marker_found(s.skip(1), i - 1);
    }
}

proof fn lemma_first_marker_none(s: Seq<char>)
    requires
        forall|j: int| 0 <= j < s.len() - 1 ==> !(#[trigger] s[j] == '#' && s[j + 1] == '#'),
    ensures
        first_marker(s) is None,
    decreases s.len(),
{
    if s.len() >= 2 {
        lemma_first_marker_none(s.skip(1));
    }
}

/// The preamble of a changelog document: everything before the first `##`
/// marker, or the whole document when it has no section yet.
pub open spec fn spec_preamble(doc: Seq<char>) -> Seq<char> {
    match first_marker(doc) {
        Some(i) => doc.subrange(0, i),
        None => doc,
    }
}

/// What follows the first `##` marker.
pub open spec fn spec_rest(doc: Seq<char>) -> Seq<char> {
    match first_marker(doc) {
        Some(i) => doc.skip(i + 2),
        None => Seq::empty(),
    }
}

/// The document when one exists, else the default title and a blank line.
pub open spec fn doc_or_default(existing: Option<String>) -> Seq<char> {
    match existing {
        Some(s) => s@,
        None => "# Changelog\n\n"@,
    }
}

/// The prior sections of a document as the merge re-emits them: nothing when
/// the document had none, else a blank line, the first marker restored, the
/// old text trimmed, and a final newline.
pub open spec fn spec_tail(doc: Seq<char>) -> Seq<char> {
    if spec_rest(doc).len() == 0 {
        Seq::empty()
    } else {
        "\n## "@ + spec_trim(spec_rest(doc)) + "\n"@
    }
}

/// A merged changelog: the preamble kept verbatim, the new section (trimmed,
/// one newline after it) right behind it, and the prior sections after that.
pub open spec fn spec_merge(doc: Seq<char>, section: Seq<char>) -> Seq<char> {
    spec_preamble(doc) + spec_trim(section) + "\n"@ + spec_tail(doc)
}

/// Merges a rendered section into the changelog document, which defaults to
/// a bare title: the new section lands right after the preamble, before all
/// prior sections.
pub fn merge_changelog(existing: &Option<String>, section: &String) -> (r: String)
    ensures
        r@ == spec_merge(doc_or_default(*existing), section@),
{
    let doc: String = match existing {
        Some(s) => s.clone(),
        None => String::from_str("# Changelog\n\n"),
    };
    let d = doc.as_str();
    let n = d.unicode_len();
    let last = if n >= 1 {
        n - 1
    } else {
        0
    };
    let mut i: usize = 0;
    while i < last && !(d.get_char(i) == '#' && d.get_char(i + 1) == '#')
        invariant
            n == d@.len(),
            last == (if n >= 1 { (n - 1) as int } else { 0 }),
            0 <= i <= last,
            forall|j: int| 0 <= j < i ==> !(#[trigger] d@[j] == '#' && d@[j + 1] == '#'),
        decreases last - i,
    {
        i = i + 1;
    }
    let found = i < last;
    let mut out: String;
    let rest_text: String;
    if found {
        proof {
            lemma_first_marker_found(d@, i as int);
        }
        out = d.substring_char(0, i).to_owned();
        rest_text = d.substring_char(i + 2, n).to_owned();
        proof {
            assert(rest_text@ =~= d@.skip(i + 2));
        }
    } else {
        proof {
            assert(forall|j: int| 0 <= j < n - 1 ==> !(#[trigger] d@[j] == '#' && d@[j + 1]
                == '#'));
            lemma_first_marker_none(d@);
        }
        out = d.to_owned();
        rest_text = String::new();
    }
    let trimmed = trim_str(section.as_str());
    out.append(trimmed.as_str());
    out.append("\n");
    if rest_text.as_str().unicode_len() > 0 {
        out.append("\n## ");
        let t = trim_str(rest_text.as_str());
        out.append(t.as_str());
        out.append("\n");
    }
    proof {
        assert(out@ =~= spec_merge(doc_or_default(*existing), section@));
    }
    out
}

} // verus!
