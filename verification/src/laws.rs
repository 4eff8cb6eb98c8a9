//! The laws of the library, stated and proved once over the spec functions
//! that the public contracts use: idempotence of a resolution with nothing to
//! resolve, severity precedence, root-document scoping, changelog ordering,
//! and the render/parse round trip of a changelog section.

use vstd::prelude::*;

use crate::changelog::{
    empty_buckets, first_marker, lemma_first_marker_bounds, lemma_first_marker_found, spec_body,
    spec_cat_text, spec_handle_line, spec_items_text, spec_merge, spec_parse_body,
    spec_parse_section, spec_preamble, spec_push, spec_rest, spec_section, spec_tail, Buckets,
};
use crate::changeset::{
    node_matches, spec_any_match, spec_mag_of, spec_matched, spec_remaining,
    spec_remaining_scopes, spec_take_changes, Category, Change, NodeData, Severity,
};
use crate::strutil::{
    all_ws, is_ws, lemma_line_end_from_scan, lemma_ws_suffix_bound, lemma_ws_suffix_props,
    spec_trim, ws_prefix_len, ws_suffix_len,
};
use crate::version::{spec_resolve, Magnitude, Version};

verus! {

// ---------------------------------------------------------------------------
// Idempotence: nothing to resolve changes nothing.
// ---------------------------------------------------------------------------

/// With no matching change-request node, the root-scoped pass classifies
/// nothing and keeps every document's nodes: the document is untouched.
pub proof fn lemma_idempotence_filtering(
    ns: Seq<NodeData>,
    cs: Seq<Option<String>>,
    t: Seq<char>,
)
    requires
        ns.len() == cs.len(),
        forall|i: int| 0 <= i < ns.len() ==> !node_matches(#[trigger] cs[i], t),
    ensures
        spec_remaining(ns, cs, t) == ns,
        spec_take_changes(ns, cs, t) == Ok::<Seq<Change>, Seq<char>>(Seq::empty()),
        !spec_any_match(ns, cs, t),
    decreases ns.len(),
{
    if ns.len() > 0 {
        lemma_idempotence_filtering(ns.drop_last(), cs.drop_last(), t);
        assert(spec_remaining(ns, cs, t) =~= ns);
    }
}

/// With zero classified changes the bump magnitude is `NoBump`, and a version
/// with no prerelease then resolves to "no changesets found": nothing is
/// written. (A version still carrying a prerelease is instead promoted or
/// re-tagged even with zero changes: `1.2.3-beta.2` with no requested channel
/// resolves to `1.2.3`.)
pub proof fn lemma_idempotence_resolution(v: Version, ch: Option<String>)
    requires
        v.pre is None,
    ensures
        spec_mag_of(Seq::<Severity>::empty()) == Magnitude::NoBump,
        spec_resolve(v, Magnitude::NoBump, ch) is None,
{
}

// ---------------------------------------------------------------------------
// Severity precedence.
// ---------------------------------------------------------------------------

proof fn lemma_contains_snoc(s: Seq<Severity>, x: Severity)
    requires
        s.len() > 0,
    ensures
        s.contains(x) <==> (s.drop_last().contains(x) || s.last() == x),
{
    if s.drop_last().contains(x) {
        let i = choose|i: int| 0 <= i < s.drop_last().len() && s.drop_last()[i] == x;
        assert(s[i] == x);
    }
    if s.contains(x) {
        let i = choose|i: int| 0 <= i < s.len() && s[i] == x;
        if i < s.len() - 1 {
            assert(s.drop_last()[i] == x);
        }
    }
}

/// The bump magnitude is the highest severity present: `major` wins over
/// `minor`, `minor` over `patch`, and an empty set of changes bumps nothing,
/// regardless of node order or count.
pub proof fn lemma_severity_precedence(s: Seq<Severity>)
    ensures
        (spec_mag_of(s) == Magnitude::Major) <==> s.contains(Severity::Major),
        (spec_mag_of(s) == Magnitude::Minor) <==> (!s.contains(Severity::Major) && s.contains(
            Severity::Minor,
        )),
        (spec_mag_of(s) == Magnitude::Patch) <==> (!s.contains(Severity::Major) && !s.contains(
            Severity::Minor,
        ) && s.contains(Severity::Patch)),
        (spec_mag_of(s) == Magnitude::NoBump) <==> s.len() == 0,
    decreases s.len(),
{
    if s.len() > 0 {
        lemma_severity_precedence(s.drop_last());
        lemma_contains_snoc(s, Severity::Major);
        lemma_contains_snoc(s, Severity::Minor);
        lemma_contains_snoc(s, Severity::Patch);
    }
}

/// Two change sets holding the same severities resolve to the same bump
/// magnitude, whatever their order and multiplicity.
pub proof fn lemma_severity_order_independent(s1: Seq<Severity>, s2: Seq<Severity>)
    requires
        forall|x: Severity| s1.contains(x) <==> s2.contains(x),
    ensures
        spec_mag_of(s1) == spec_mag_of(s2),
{
    lemma_severity_precedence(s1);
    lemma_severity_precedence(s2);
    if s1.len() == 0 && s2.len() > 0 {
        assert(s2.contains(s2[0]));
        assert(s1.contains(s2[0]));
    }
    if s2.len() == 0 && s1.len() > 0 {
        assert(s1.contains(s1[0]));
        assert(s2.contains(s1[0]));
    }
}

// ---------------------------------------------------------------------------
// Scoping of root documents.
// ---------------------------------------------------------------------------

/// In a root-scoped document whose nodes all belong to package `a` or package
/// `b`, resolving `a` takes exactly `a`'s nodes: what remains is exactly
/// `b`'s nodes, each still scoped to `b`.
pub proof fn lemma_scoping_partition(
    ns: Seq<NodeData>,
    cs: Seq<Option<String>>,
    a: Seq<char>,
    b: Seq<char>,
)
    requires
        ns.len() == cs.len(),
        a != b,
        forall|i: int|
            0 <= i < ns.len() ==> node_matches(#[trigger] cs[i], a) || node_matches(cs[i], b),
    ensures
        spec_remaining(ns, cs, a) == spec_matched(ns, cs, b),
        spec_remaining_scopes(ns, cs, a).len() == spec_remaining(ns, cs, a).len(),
        forall|i: int|
            0 <= i < spec_remaining_scopes(ns, cs, a).len() ==> node_matches(
                #[trigger] spec_remaining_scopes(ns, cs, a)[i],
                b,
            ),
    decreases ns.len(),
{
    if ns.len() > 0 {
        lemma_scoping_partition(ns.drop_last(), cs.drop_last(), a, b);
        assert(spec_remaining(ns, cs, a) =~= spec_matched(ns, cs, b));
    }
}

/// When every remaining node is scoped to `b`, resolving `b` afterwards takes
/// them all: the document is then empty and is deleted.
pub proof fn lemma_scoping_consumes_rest(
    ns: Seq<NodeData>,
    cs: Seq<Option<String>>,
    t: Seq<char>,
)
    requires
        ns.len() == cs.len(),
        forall|i: int| 0 <= i < ns.len() ==> node_matches(#[trigger] cs[i], t),
    ensures
        spec_remaining(ns, cs, t).len() == 0,
    decreases ns.len(),
{
    if ns.len() > 0 {
        lemma_scoping_consumes_rest(ns.drop_last(), cs.drop_last(), t);
    }
}

/// Scoping, whole: resolving `a` on a document holding nodes for `a` and `b`
/// leaves exactly `b`'s nodes in the rewritten document, and resolving `b` on
/// what is left consumes the document entirely.
pub proof fn lemma_scoping(ns: Seq<NodeData>, cs: Seq<Option<String>>, a: Seq<char>, b: Seq<char>)
    requires
        ns.len() == cs.len(),
        a != b,
        forall|i: int|
            0 <= i < ns.len() ==> node_matches(#[trigger] cs[i], a) || node_matches(cs[i], b),
    ensures
        spec_remaining(ns, cs, a) == spec_matched(ns, cs, b),
        spec_remaining(spec_remaining(ns, cs, a), spec_remaining_scopes(ns, cs, a), b).len() == 0,
{
    lemma_scoping_partition(ns, cs, a, b);
    lemma_scoping_consumes_rest(spec_remaining(ns, cs, a), spec_remaining_scopes(ns, cs, a), b);
}

// ---------------------------------------------------------------------------
// Changelog ordering.
// ---------------------------------------------------------------------------

/// Merging a section that begins with the section marker keeps the document's
/// preamble, and what follows the marker afterwards is the new section's body
/// followed by the re-emitted prior sections.
pub proof fn lemma_preamble_preserved(d: Seq<char>, s: Seq<char>)
    requires
        spec_trim(s) == s,
        s.len() >= 3,
        s[0] == '#',
        s[1] == '#',
        s[2] != '#',
        spec_preamble(d).len() == 0 || spec_preamble(d).last() != '#',
    ensures
        spec_preamble(spec_merge(d, s)) == spec_preamble(d),
        spec_rest(spec_merge(d, s)) == s.skip(2) + "\n"@ + spec_tail(d),
{
    let pre = spec_preamble(d);
    let m = spec_merge(d, s);
    lemma_first_marker_bounds(d);
    assert(m == pre + s + "\n"@ + spec_tail(d));
    assert(m[pre.len() as int] == s[0]);
    assert(m[pre.len() as int + 1] == s[1]);
    assert forall|j: int| 0 <= j < pre.len() implies !(#[trigger] m[j] == '#' && m[j + 1] == '#')
        by {
        if j < pre.len() - 1 {
            assert(m[j] == pre[j] && m[j + 1] == pre[j + 1]);
            match first_marker(d) {
                Some(k) => {
                    assert(pre[j] == d[j] && pre[j + 1] == d[j + 1]);
                },
                None => {
                    assert(pre[j] == d[j] && pre[j + 1] == d[j + 1]);
                },
            }
        } else {
            assert(m[j] == pre.last());
        }
    }
    lemma_first_marker_found(m, pre.len() as int);
    assert(spec_preamble(m) =~= pre);
    assert(spec_rest(m) =~= s.skip(2) + "\n"@ + spec_tail(d));
}

/// After two successive merges the newer section stands right after the
/// preamble and the older section's body after it, before the still older
/// sections: the document lists sections most-recent-first.
pub proof fn lemma_changelog_ordering(d: Seq<char>, s1: Seq<char>, s2: Seq<char>)
    requires
        spec_trim(s1) == s1,
        s1.len() >= 3,
        s1[0] == '#',
        s1[1] == '#',
        s1[2] != '#',
        spec_trim(s2) == s2,
        s2.len() >= 3,
        s2[0] == '#',
        s2[1] == '#',
        s2[2] != '#',
        spec_preamble(d).len() == 0 || spec_preamble(d).last() != '#',
    ensures
        spec_merge(spec_merge(d, s1), s2) == spec_preamble(d) + s2 + "\n"@ + "\n## "@
            + spec_trim(s1.skip(2) + "\n"@ + spec_tail(d)) + "\n"@,
        spec_merge(spec_merge(d, s1), s2).subrange(
            spec_preamble(d).len() as int,
            spec_preamble(d).len() + s2.len() as int,
        ) == s2,
{
    let pre = spec_preamble(d);
    let m1 = spec_merge(d, s1);
    lemma_preamble_preserved(d, s1);
    assert(spec_rest(m1).len() > 0) by {
        assert(spec_rest(m1) == s1.skip(2) + "\n"@ + spec_tail(d));
        assert(s1.skip(2).len() == s1.len() - 2);
    }
    let m2 = spec_merge(m1, s2);
    assert(m2 == pre + s2 + "\n"@ + ("\n## "@ + spec_trim(spec_rest(m1)) + "\n"@));
    assert(m2 =~= pre + s2 + "\n"@ + "\n## "@ + spec_trim(
        s1.skip(2) + "\n"@ + spec_tail(d),
    ) + "\n"@);
    assert(m2.subrange(pre.len() as int, pre.len() + s2.len() as int) =~= s2);
}

/// A rendered section, once trimmed as the merge trims it, has the shape the
/// ordering law asks for: it begins with the section marker, and trimming it
/// again changes nothing.
pub proof fn lemma_rendered_section_merge_ready(version: Seq<char>, date: Seq<char>, b: Buckets)
    ensures
        ({
            let t = spec_trim(spec_section(version, date, b));
            &&& t.len() >= 4
            &&& t[0] == '#'
            &&& t[1] == '#'
            &&& t[2] != '#'
            &&& spec_trim(t) == t
        }),
{
    reveal_strlit("## [");
    let s = spec_section(version, date, b);
    assert(s[0] == '#' && s[1] == '#' && s[2] == ' ' && s[3] == '[');
    assert(!all_ws(s));
    lemma_ws_suffix_bound(s, 3);
    lemma_ws_suffix_props(s);
    let suf = ws_suffix_len(s);
    assert(ws_prefix_len(s) == 0);
    let t = spec_trim(s);
    assert(t =~= s.subrange(0, s.len() - suf));
    assert(t[0] == '#' && t[1] == '#' && t[2] == ' ');
    assert(!is_ws(t.last())) by {
        assert(t.last() == s[s.len() - 1 - suf]);
    }
    assert(!all_ws(t));
    assert(ws_prefix_len(t) == 0);
    assert(ws_suffix_len(t) == 0);
    assert(spec_trim(t) =~= t);
}

// ---------------------------------------------------------------------------
// Render/parse round trip of a changelog section.
// ---------------------------------------------------------------------------

/// Whether no description in any bucket holds a newline.
pub open spec fn nl_free(items: Seq<Seq<char>>) -> bool {
    forall|i: int, j: int|
        0 <= i < items.len() && 0 <= j < items[i].len() ==> #[trigger] items[i][j] != '\n'
}

/// Whether no description in any bucket holds a newline.
pub open spec fn nl_free_buckets(b: Buckets) -> bool {
    nl_free(b.added) && nl_free(b.changed) && nl_free(b.deprecated) && nl_free(b.removed)
        && nl_free(b.fixed) && nl_free(b.security)
}

/// `acc` with every item of `items` appended to the bucket of `cat`.
pub open spec fn push_all(acc: Buckets, cat: Category, items: Seq<Seq<char>>) -> Buckets
    decreases items.len(),
{
    if items.len() == 0 {
        acc
    } else {
        push_all(spec_push(acc, cat, items[0]), cat, items.skip(1))
    }
}

proof fn lemma_push_all_buckets(acc: Buckets, cat: Category, items: Seq<Seq<char>>)
    ensures
        push_all(acc, cat, items).added == (if cat is Added {
            acc.added + items
        } else {
            acc.added
        }),
        push_all(acc, cat, items).changed == (if cat is Changed {
            acc.changed + items
        } else {
            acc.changed
        }),
        push_all(acc, cat, items).deprecated == (if cat is Deprecated {
            acc.deprecated + items
        } else {
            acc.deprecated
        }),
        push_all(acc, cat, items).removed == (if cat is Removed {
            acc.removed + items
        } else {
            acc.removed
        }),
        push_all(acc, cat, items).fixed == (if cat is Fixed {
            acc.fixed + items
        } else {
            acc.fixed
        }),
        push_all(acc, cat, items).security == (if cat is Security {
            acc.security + items
        } else {
            acc.security
        }),
    decreases items.len(),
{
    if items.len() == 0 {
        assert(acc.added + items =~= acc.added);
        assert(acc.changed + items =~= acc.changed);
        assert(acc.deprecated + items =~= acc.deprecated);
        assert(acc.removed + items =~= acc.removed);
        assert(acc.fixed + items =~= acc.fixed);
        assert(acc.security + items =~= acc.security);
    } else {
        let acc2 = spec_push(acc, cat, items[0]);
        lemma_push_all_buckets(acc2, cat, items.skip(1));
        match cat {
            Category::Added => {
                assert(acc2.added + items.skip(1) =~= acc.added + items);
            },
            Category::Changed => {
                assert(acc2.changed + items.skip(1) =~= acc.changed + items);
            },
            Category::Deprecated => {
                assert(acc2.deprecated + items.skip(1) =~= acc.deprecated + items);
            },
            Category::Removed => {
                assert(acc2.removed + items.skip(1) =~= acc.removed + items);
            },
            Category::Fixed => {
                assert(acc2.fixed + items.skip(1) =~= acc.fixed + items);
            },
            Category::Security => {
                assert(acc2.security + items.skip(1) =~= acc.security + items);
            },
        }
    }
}

/// Parsing one newline-free line followed by the rest: the parser handles
/// the line and goes on.
proof fn lemma_parse_step(line: Seq<char>, rest: Seq<char>, cur: Option<Category>, acc: Buckets)
    requires
        forall|i: int| 0 <= i < line.len() ==> line[i] != '\n',
    ensures
        spec_parse_body(line + "\n"@ + rest, cur, acc) == spec_parse_body(
            rest,
            spec_handle_line(line, cur, acc).0,
            spec_handle_line(line, cur, acc).1,
        ),
{
    reveal_strlit("\n");
    let s = line + "\n"@ + rest;
    assert(("\n"@).len() == 1);
    assert forall|j: int| 0 <= j < line.len() implies s[j] != '\n' by {
        assert(s[j] == line[j]);
    }
    assert(s[line.len() as int] == '\n');
    lemma_line_end_from_scan(s, line.len() as int);
    assert(s.subrange(0, line.len() as int) =~= line);
    assert(s.skip(line.len() as int + 1) =~= rest);
}

/// A section header line `## [...` sets no category and adds no item.
proof fn lemma_header_skipped(
    version: Seq<char>,
    date: Seq<char>,
    cur: Option<Category>,
    acc: Buckets,
)
    ensures
        spec_handle_line("## ["@ + version + "] - "@ + date, cur, acc) == (cur, acc),
{
    reveal_strlit("## [");
    reveal_strlit("### Added");
    reveal_strlit("### Changed");
    reveal_strlit("### Deprecated");
    reveal_strlit("### Removed");
    reveal_strlit("### Fixed");
    reveal_strlit("### Security");
    reveal_strlit("- ");
    let line = "## ["@ + version + "] - "@ + date;
    assert(line[2] == ' ');
    assert(line[0] == '#');
    if line.len() >= 2 && line.subrange(0, 2) == "- "@ {
        assert(line.subrange(0, 2)[0] == line[0]);
        assert(false);
    }
}

/// A blank line sets no category and adds no item.
proof fn lemma_blank_skipped(cur: Option<Category>, acc: Buckets)
    ensures
        spec_handle_line(Seq::empty(), cur, acc) == (cur, acc),
{
    reveal_strlit("### Added");
    reveal_strlit("### Changed");
    reveal_strlit("### Deprecated");
    reveal_strlit("### Removed");
    reveal_strlit("### Fixed");
    reveal_strlit("### Security");
    let line = Seq::<char>::empty();
    assert(line.len() == 0);
}

/// Parsing the item lines of one category appends exactly those items, in
/// order, to the selected bucket.
proof fn lemma_parse_items(items: Seq<Seq<char>>, rest: Seq<char>, cat: Category, acc: Buckets)
    requires
        nl_free(items),
    ensures
        spec_parse_body(spec_items_text(items) + rest, Some(cat), acc) == spec_parse_body(
            rest,
            Some(cat),
            push_all(acc, cat, items),
        ),
    decreases items.len(),
{
    reveal_strlit("- ");
    reveal_strlit("### Added");
    reveal_strlit("### Changed");
    reveal_strlit("### Deprecated");
    reveal_strlit("### Removed");
    reveal_strlit("### Fixed");
    reveal_strlit("### Security");
    if items.len() == 0 {
        assert(spec_items_text(items) + rest =~= rest);
    } else {
        let line = "- "@ + items[0];
        let tail_items = items.skip(1);
        assert(spec_items_text(items) + rest =~= line + "\n"@ + (spec_items_text(tail_items)
            + rest));
        assert forall|i: int| 0 <= i < line.len() implies line[i] != '\n' by {
            if i >= 2 {
                assert(line[i] == items[0][i - 2]);
            }
        }
        lemma_parse_step(line, spec_items_text(tail_items) + rest, Some(cat), acc);
        assert(line.subrange(0, 2) =~= "- "@);
        assert(line[0] == '-');
        assert(spec_handle_line(line, Some(cat), acc) == (
            Some(cat),
            spec_push(acc, cat, line.skip(2)),
        ));
        assert(line.skip(2) =~= items[0]);
        assert(nl_free(tail_items)) by {
            assert forall|i: int, j: int|
                0 <= i < tail_items.len() && 0 <= j < tail_items[i].len() implies #[trigger] tail_items[i][j]
                != '\n' by {
                assert(tail_items[i] == items[i + 1]);
            }
        }
        lemma_parse_items(tail_items, rest, cat, spec_push(acc, cat, items[0]));
    }
}

/// Parsing one rendered category block selects its category (when it renders
/// at all) and appends exactly its items.
proof fn lemma_parse_block(
    title: Seq<char>,
    cat: Category,
    items: Seq<Seq<char>>,
    rest: Seq<char>,
    cur: Option<Category>,
    acc: Buckets,
)
    requires
        nl_free(items),
        forall|i: int| 0 <= i < title.len() ==> title[i] != '\n',
        spec_handle_line("### "@ + title, cur, acc) == (Some(cat), acc),
    ensures
        spec_parse_body(spec_cat_text(title, items) + rest, cur, acc) == spec_parse_body(
            rest,
            if items.len() == 0 {
                cur
            } else {
                Some(cat)
            },
            push_all(acc, cat, items),
        ),
{
    reveal_strlit("### ");
    reveal_strlit("\n\n");
    reveal_strlit("\n");
    if items.len() == 0 {
        assert(spec_cat_text(title, items) + rest =~= rest);
        assert(push_all(acc, cat, items) == acc);
    } else {
        let tl = "### "@ + title;
        assert(spec_cat_text(title, items) + rest =~= tl + "\n"@ + (Seq::<char>::empty() + "\n"@
            + (spec_items_text(items) + (Seq::<char>::empty() + "\n"@ + rest))));
        assert forall|i: int| 0 <= i < tl.len() implies tl[i] != '\n' by {
            if i >= 4 {
                assert(tl[i] == title[i - 4]);
            }
        }
        lemma_parse_step(tl, Seq::<char>::empty() + "\n"@ + (spec_items_text(items) + (Seq::<
            char,
        >::empty() + "\n"@ + rest)), cur, acc);
        lemma_parse_step(
            Seq::<char>::empty(),
            spec_items_text(items) + (Seq::<char>::empty() + "\n"@ + rest),
            Some(cat),
            acc,
        );
        lemma_blank_skipped(Some(cat), acc);
        lemma_parse_items(items, Seq::<char>::empty() + "\n"@ + rest, cat, acc);
        lemma_parse_step(Seq::<char>::empty(), rest, Some(cat), push_all(acc, cat, items));
        lemma_blank_skipped(Some(cat), push_all(acc, cat, items));
    }
}

/// The heading title of a category.
pub open spec fn title_of(cat: Category) -> Seq<char> {
    match cat {
        Category::Added => "Added"@,
        Category::Changed => "Changed"@,
        Category::Deprecated => "Deprecated"@,
        Category::Removed => "Removed"@,
        Category::Fixed => "Fixed"@,
        Category::Security => "Security"@,
    }
}

#[verifier::rlimit(50)]
proof fn lemma_title_line(cat: Category, c: Option<Category>, a: Buckets)
    ensures
        spec_handle_line("### "@ + title_of(cat), c, a) == (Some(cat), a),
{
    reveal_strlit("### ");
    reveal_strlit("Added");
    reveal_strlit("Changed");
    reveal_strlit("Deprecated");
    reveal_strlit("Removed");
    reveal_strlit("Fixed");
    reveal_strlit("Security");
    reveal_strlit("### Added");
    reveal_strlit("### Changed");
    reveal_strlit("### Deprecated");
    reveal_strlit("### Removed");
    reveal_strlit("### Fixed");
    reveal_strlit("### Security");
    match cat {
        Category::Added => {
            assert("### "@ + title_of(cat) =~= "### Added"@);
        },
        Category::Changed => {
            assert("### "@ + title_of(cat) =~= "### Changed"@);
        },
        Category::Deprecated => {
            assert("### "@ + title_of(cat) =~= "### Deprecated"@);
        },
        Category::Removed => {
            assert("### "@ + title_of(cat) =~= "### Removed"@);
            assert(("### Removed"@)[4] != ("### Changed"@)[4]);
        },
        Category::Fixed => {
            assert("### "@ + title_of(cat) =~= "### Fixed"@);
            assert(("### Fixed"@)[4] != ("### Added"@)[4]);
        },
        Category::Security => {
            assert("### "@ + title_of(cat) =~= "### Security"@);
        },
    }
}

/// Rendering categorized descriptions into a section and parsing the section
/// back recovers the same category groupings: category order is canonical,
/// item order within a category is insertion order.
#[verifier::rlimit(100)]
pub proof fn lemma_section_round_trip(version: Seq<char>, date: Seq<char>, b: Buckets)
    requires
        nl_free_buckets(b),
        forall|i: int| 0 <= i < version.len() ==> version[i] != '\n',
        forall|i: int| 0 <= i < date.len() ==> date[i] != '\n',
    ensures
        spec_parse_section(spec_section(version, date, b)) == b,
{
    reveal_strlit("## [");
    reveal_strlit("] - ");
    reveal_strlit("\n\n");
    reveal_strlit("\n");
    let header = "## ["@ + version + "] - "@ + date;
    let body = spec_body(b);
    assert(spec_section(version, date, b) =~= header + "\n"@ + (Seq::<char>::empty() + "\n"@
        + body));
    assert forall|i: int| 0 <= i < header.len() implies header[i] != '\n' by {
        let h1 = "## ["@;
        let h2 = "] - "@;
        if i < 4 {
            assert(header[i] == h1[i]);
        } else if i < 4 + version.len() {
            assert(header[i] == version[i - 4]);
        } else if i < 4 + version.len() + 4 {
            assert(header[i] == h2[i - 4 - version.len()]);
        } else {
            assert(header[i] == date[i - 8 - version.len()]);
        }
    }
    lemma_parse_step(header, Seq::<char>::empty() + "\n"@ + body, None, empty_buckets());
    lemma_header_skipped(version, date, None, empty_buckets());
    lemma_parse_step(Seq::<char>::empty(), body, None, empty_buckets());
    lemma_blank_skipped(None, empty_buckets());

    reveal_strlit("Added");
    reveal_strlit("Changed");
    reveal_strlit("Deprecated");
    reveal_strlit("Removed");
    reveal_strlit("Fixed");
    reveal_strlit("Security");
    let c1 = spec_cat_text("Added"@, b.added);
    let c2 = spec_cat_text("Changed"@, b.changed);
    let c3 = spec_cat_text("Deprecated"@, b.deprecated);
    let c4 = spec_cat_text("Removed"@, b.removed);
    let c5 = spec_cat_text("Fixed"@, b.fixed);
    let c6 = spec_cat_text("Security"@, b.security);
    assert(body =~= c1 + (c2 + (c3 + (c4 + (c5 + (c6 + Seq::<char>::empty()))))));


    let a0 = empty_buckets();
    let a1 = push_all(a0, Category::Added, b.added);
    let a2 = push_all(a1, Category::Changed, b.changed);
    let a3 = push_all(a2, Category::Deprecated, b.deprecated);
    let a4 = push_all(a3, Category::Removed, b.removed);
    let a5 = push_all(a4, Category::Fixed, b.fixed);
    let a6 = push_all(a5, Category::Security, b.security);

    let r6 = Seq::<char>::empty();
    let r5 = c6 + r6;
    let r4 = c5 + r5;
    let r3 = c4 + r4;
    let r2 = c3 + r3;
    let r1 = c2 + r2;

    let cur0: Option<Category> = None;
    let cur1 = if b.added.len() == 0 {
        cur0
    } else {
        Some(Category::Added)
    };
    let cur2 = if b.changed.len() == 0 {
        cur1
    } else {
        Some(Category::Changed)
    };
    let cur3 = if b.deprecated.len() == 0 {
        cur2
    } else {
        Some(Category::Deprecated)
    };
    let cur4 = if b.removed.len() == 0 {
        cur3
    } else {
        Some(Category::Removed)
    };
    let cur5 = if b.fixed.len() == 0 {
        cur4
    } else {
        Some(Category::Fixed)
    };

    lemma_title_line(Category::Added, cur0, a0);
    lemma_parse_block("Added"@, Category::Added, b.added, r1, cur0, a0);
    lemma_title_line(Category::Changed, cur1, a1);
    lemma_parse_block("Changed"@, Category::Changed, b.changed, r2, cur1, a1);
    lemma_title_line(Category::Deprecated, cur2, a2);
    lemma_parse_block("Deprecated"@, Category::Deprecated, b.deprecated, r3, cur2, a2);
    lemma_title_line(Category::Removed, cur3, a3);
    lemma_parse_block("Removed"@, Category::Removed, b.removed, r4, cur3, a3);
    lemma_title_line(Category::Fixed, cur4, a4);
    lemma_parse_block("Fixed"@, Category::Fixed, b.fixed, r5, cur4, a4);
    lemma_title_line(Category::Security, cur5, a5);
    lemma_parse_block("Security"@, Category::Security, b.security, r6, cur5, a5);

    lemma_push_all_buckets(a0, Category::Added, b.added);
    lemma_push_all_buckets(a1, Category::Changed, b.changed);
    lemma_push_all_buckets(a2, Category::Deprecated, b.deprecated);
    lemma_push_all_buckets(a3, Category::Removed, b.removed);
    lemma_push_all_buckets(a4, Category::Fixed, b.fixed);
    lemma_push_all_buckets(a5, Category::Security, b.security);
    assert(a6.added =~= b.added);
    assert(a6.changed =~= b.changed);
    assert(a6.deprecated =~= b.deprecated);
    assert(a6.removed =~= b.removed);
    assert(a6.fixed =~= b.fixed);
    assert(a6.security =~= b.security);
    assert(a6 =~~= b);
}

} // verus!
