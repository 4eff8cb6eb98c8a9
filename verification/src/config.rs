//! The package configuration file: line-oriented directives, one keyword per
//! line (`packages`, `version`, `language`, `custom`, `name`), blank lines
//! and `#`-prefixed comments ignored, unknown keywords fatal. Committing a
//! resolved version rewrites only the line carrying the `version` directive
//! and preserves every other line verbatim, in its original order.

use vstd::prelude::*;
use vstd::string::StrSliceExecFns;
use vstd::string::StringExecFns;

use crate::error::Error;
use crate::strutil::{has_prefix, is_ws, lemma_line_end_from_scan, spec_line_end, str_eq};

verus! {

// ---------------------------------------------------------------------------
// Splitting text into lines and lines into words.
// ---------------------------------------------------------------------------

/// The lines of `s`, split on newlines; a trailing newline adds no empty
/// last line.
pub open spec fn spec_lines(s: Seq<char>) -> Seq<Seq<char>>
    decreases s.len(),
{
    if s.len() == 0 {
        Seq::empty()
    } else {
        let e = spec_line_end(s);
        if 0 <= e <= s.len() {
            let rest = if e < s.len() {
                s.skip(e + 1)
            } else {
                Seq::empty()
            };
            seq![s.subrange(0, e)] + spec_lines(rest)
        } else {
            Seq::empty()
        }
    }
}

/// Splits text into lines.
pub fn split_lines(text: &str) -> (r: Vec<String>)
    ensures
        r.deep_view() == spec_lines(text@),
{
    let n = text.unicode_len();
    let mut out: Vec<String> = Vec::new();
    let mut p: usize = 0;
    proof {
        assert(text@.skip(0) =~= text@);
        assert(out.deep_view() + spec_lines(text@) =~= spec_lines(text@));
    }
    while p < n
        invariant
            0 <= p <= n,
            n == text@.len(),
            out.deep_view() + spec_lines(text@.skip(p as int)) == spec_lines(text@),
        decreases n - p,
    {
        let mut j: usize = p;
        while j < n && text.get_char(j) != '\n'
            invariant
                p <= j <= n,
                n == text@.len(),
                forall|k: int| p <= k < j ==> text@[k] != '\n',
            decreases n - j,
        {
            j = j + 1;
        }
        let ghost tail = text@.skip(p as int);
        proof {
            assert forall|k: int| 0 <= k < j - p implies tail[k] != '\n' by {
                assert(tail[k] == text@[p + k]);
            }
            if (j as int) < n {
                assert(tail[j - p] == text@[j as int]);
            }
            lemma_line_end_from_scan(tail, j - p);
        }
        let line = text.substring_char(p, j).to_owned();
        proof {
            assert(line@ =~= tail.subrange(0, spec_line_end(tail)));
        }
        let next = if j < n {
            j + 1
        } else {
            n
        };
        let ghost dv = out.deep_view();
        let ghost lv = line@;
        out.push(line);
        proof {
            if (j as int) < n {
                assert(tail.skip(j - p + 1) =~= text@.skip(j + 1));
            } else {
                assert(text@.skip(n as int) =~= Seq::<char>::empty());
            }
            assert(out.deep_view() =~= dv + seq![lv]);
            assert((dv + seq![lv]) + spec_lines(text@.skip(next as int)) =~= dv + (seq![lv]
                + spec_lines(text@.skip(next as int))));
        }
        p = next;
    }
    proof {
        assert(text@.skip(n as int) =~= Seq::<char>::empty());
        assert(out.deep_view() + Seq::<Seq<char>>::empty() =~= out.deep_view());
    }
    out
}

/// How many leading characters of `s` are not whitespace.
pub open spec fn word_len(s: Seq<char>) -> int
    decreases s.len(),
{
    if s.len() == 0 || is_ws(s[0]) {
        0
    } else {
        1 + word_len(s.skip(1))
    }
}

proof fn lemma_word_len_from_scan(s: Seq<char>, i: int)
    requires
        0 <= i <= s.len(),
        forall|j: int| 0 <= j < i ==> !is_ws(#[trigger] s[j]),
        i == s.len() || is_ws(s[i]),
    ensures
        word_len(s) == i,
    decreases i,
{
    if i > 0 {
        lemma_word_len_from_scan(s.skip(1), i - 1);
    }
}

/// The whitespace-separated words of `s`, in order.
pub open spec fn spec_words(s: Seq<char>) -> Seq<Seq<char>>
    decreases s.len(),
{
    if s.len() == 0 {
        Seq::empty()
    } else if is_ws(s[0]) {
        spec_words(s.skip(1))
    } else {
        let e = word_len(s);
        if 1 <= e <= s.len() {
            seq![s.subrange(0, e)] + spec_words(s.skip(e))
        } else {
            Seq::empty()
        }
    }
}

/// Splits a line into whitespace-separated words.
pub fn split_words(line: &str) -> (r: Vec<String>)
    ensures
        r.deep_view() == spec_words(line@),
{
    let n = line.unicode_len();
    let mut out: Vec<String> = Vec::new();
    let mut p: usize = 0;
    proof {
        assert(line@.skip(0) =~= line@);
        assert(out.deep_view() + spec_words(line@) =~= spec_words(line@));
    }
    while p < n
        invariant
            0 <= p <= n,
            n == line@.len(),
            out.deep_view() + spec_words(line@.skip(p as int)) == spec_words(line@),
        decreases n - p,
    {
        let c = line.get_char(p);
        if c == ' ' || c == '\t' || c == '\n' || c == '\r' {
            proof {
                assert(line@.skip(p as int)[0] == line@[p as int]);
                assert(line@.skip(p as int).skip(1) =~= line@.skip(p + 1));
            }
            p = p + 1;
        } else {
            let mut j: usize = p + 1;
            while j < n && !(line.get_char(j) == ' ' || line.get_char(j) == '\t' || line.get_char(j)
                == '\n' || line.get_char(j) == '\r')
                invariant
                    p < j <= n,
                    n == line@.len(),
                    forall|k: int| p <= k < j ==> !is_ws(#[trigger] line@[k]),
                decreases n - j,
            {
                j = j + 1;
            }
            let ghost tail = line@.skip(p as int);
            proof {
                assert forall|k: int| 0 <= k < j - p implies !is_ws(#[trigger] tail[k]) by {
                    assert(tail[k] == line@[p + k]);
                }
                if (j as int) < n {
                    assert(tail[j - p] == line@[j as int]);
                }
                lemma_word_len_from_scan(tail, j - p);
            }
            let word = line.substring_char(p, j).to_owned();
            let ghost dv = out.deep_view();
            let ghost wv = word@;
            out.push(word);
            proof {
                assert(wv =~= tail.subrange(0, word_len(tail)));
                assert(tail.skip(j - p) =~= line@.skip(j as int));
                assert(out.deep_view() =~= dv + seq![wv]);
                assert((dv + seq![wv]) + spec_words(line@.skip(j as int)) =~= dv + (seq![wv]
                    + spec_words(line@.skip(j as int))));
            }
            p = j;
        }
    }
    proof {
        assert(line@.skip(n as int) =~= Seq::<char>::empty());
        assert(out.deep_view() + Seq::<Seq<char>>::empty() =~= out.deep_view());
    }
    out
}

// ---------------------------------------------------------------------------
// Directives.
// ---------------------------------------------------------------------------

/// What a package configuration file declares.
pub struct Directives {
    pub subpackages: Vec<String>,
    pub version: Option<String>,
    pub language: Option<String>,
    pub custom: Option<String>,
    pub name: Option<String>,
}

/// The ghost mirror of `Directives`.
#[verifier::ext_equal]
pub ghost struct DirectivesGh {
    pub subpackages: Seq<Seq<char>>,
    pub version: Option<Seq<char>>,
    pub language: Option<Seq<char>>,
    pub custom: Option<Seq<char>>,
    pub name: Option<Seq<char>>,
}

pub open spec fn opt_view(o: Option<String>) -> Option<Seq<char>> {
    match o {
        Some(s) => Some(s@),
        None => None,
    }
}

impl View for Directives {
    type V = DirectivesGh;

    open spec fn view(&self) -> DirectivesGh {
        DirectivesGh {
            subpackages: self.subpackages.deep_view(),
            version: opt_view(self.version),
            language: opt_view(self.language),
            custom: opt_view(self.custom),
            name: opt_view(self.name),
        }
    }
}

pub open spec fn empty_directives() -> DirectivesGh {
    DirectivesGh { subpackages: Seq::empty(), version: None, language: None, custom: None, name: None }
}

/// What one configuration line does to the directives gathered so far.
/// Blank and `#`-prefixed lines change nothing; a keyword without a value and
/// an unknown keyword are fatal, with the message the error must report.
pub open spec fn spec_apply_line(d: DirectivesGh, line: Seq<char>) -> Result<DirectivesGh, Seq<char>> {
    let ws = spec_words(line);
    if line.len() == 0 || line[0] == '#' || ws.len() == 0 {
        Ok(d)
    } else if ws.len() == 1 {
        Err("configuration error, refer to nanparc(5) for more information"@)
    } else if ws[0] == "packages"@ {
        Ok(DirectivesGh { subpackages: d.subpackages + ws.skip(1), ..d })
    } else if ws[0] == "version"@ {
        Ok(DirectivesGh { version: Some(ws[1]), ..d })
    } else if ws[0] == "language"@ {
        Ok(DirectivesGh { language: Some(ws[1]), ..d })
    } else if ws[0] == "custom"@ {
        Ok(DirectivesGh { custom: Some(ws[1]), ..d })
    } else if ws[0] == "name"@ {
        Ok(DirectivesGh { name: Some(ws[1]), ..d })
    } else {
        Err("unknown configuration keyword "@ + ws[0] + ", refer to nanparc(5)"@)
    }
}

/// The directives a sequence of configuration lines declares.
pub open spec fn spec_gather(lines: Seq<Seq<char>>) -> Result<DirectivesGh, Seq<char>>
    decreases lines.len(),
{
    if lines.len() == 0 {
        Ok(empty_directives())
    } else {
        match spec_gather(lines.drop_last()) {
            Err(m) => Err(m),
            Ok(d) => spec_apply_line(d, lines.last()),
        }
    }
}

/// A container (a configuration with subpackages) must not declare a version
/// or an ecosystem kind; a leaf must declare a version.
pub open spec fn spec_validate(d: DirectivesGh) -> Result<DirectivesGh, Seq<char>> {
    if d.subpackages.len() > 0 && d.version is Some {
        Err("cannot specify version on superpackage"@)
    } else if d.subpackages.len() > 0 && d.language is Some {
        Err("cannot specify language on superpackage"@)
    } else if d.subpackages.len() == 0 && d.version is None {
        Err("config must have version or packages"@)
    } else {
        Ok(d)
    }
}

/// The parse of a whole configuration text.
pub open spec fn spec_parse_nanparc(text: Seq<char>) -> Result<DirectivesGh, Seq<char>> {
    match spec_gather(spec_lines(text)) {
        Err(m) => Err(m),
        Ok(d) => spec_validate(d),
    }
}

proof fn lemma_gather_err(lines: Seq<Seq<char>>, i: int)
    requires
        0 <= i < lines.len(),
        spec_gather(lines.subrange(0, i)) is Ok,
        spec_apply_line(spec_gather(lines.subrange(0, i))->Ok_0, lines[i]) is Err,
    ensures
        spec_gather(lines) == Err::<DirectivesGh, Seq<char>>(
            spec_apply_line(spec_gather(lines.subrange(0, i))->Ok_0, lines[i])->Err_0,
        ),
    decreases lines.len(),
{
    if i == lines.len() - 1 {
        assert(lines.drop_last() =~= lines.subrange(0, i));
    } else {
        assert(lines.drop_last().subrange(0, i) =~= lines.subrange(0, i));
        lemma_gather_err(lines.drop_last(), i);
    }
}

/// Parses a package configuration text into its directives, by
/// `spec_parse_nanparc`: unknown or valueless keywords and an invalid
/// container/leaf shape are fatal configuration errors.
pub fn parse_nanparc(text: &str) -> (r: Result<Directives, Error>)
    ensures
        match spec_parse_nanparc(text@) {
            Ok(d) => r matches Ok(v) && v@ == d,
            Err(m) => r matches Err(e) && e matches Error::Config(mm) && mm@ == m,
        },
{
    let lines = split_lines(text);
    let mut dirs = Directives {
        subpackages: Vec::new(),
        version: None,
        language: None,
        custom: None,
        name: None,
    };
    proof {
        assert(dirs@ =~~= empty_directives());
    }
    let n = lines.len();
    let mut i: usize = 0;
    while i < n
        invariant
            0 <= i <= n,
            n == lines@.len(),
            lines.deep_view() == spec_lines(text@),
            spec_gather(lines.deep_view().subrange(0, i as int)) == Ok::<DirectivesGh, Seq<char>>(
                dirs@,
            ),
        decreases n - i,
    {
        let ghost dv = lines.deep_view();
        proof {
            assert(dv.subrange(0, i + 1).drop_last() =~= dv.subrange(0, i as int));
            assert(dv.subrange(0, i + 1).last() == dv[i as int]);
            assert(dv[i as int] == lines@[i as int]@);
        }
        let line = &lines[i];
        let first = if line.as_str().unicode_len() > 0 {
            line.as_str().get_char(0)
        } else {
            ' '
        };
        if line.as_str().unicode_len() == 0 || first == '#' {
            // Blank or comment line: nothing declared.
        } else {
            let ws = split_words(line.as_str());
            if ws.len() == 0 {
                // Whitespace-only line: treated as blank.
            } else if ws.len() == 1 {
                proof {
                    lemma_gather_err(dv, i as int);
                }
                return Err(
                    Error::Config(
                        String::from_str(
                            "configuration error, refer to nanparc(5) for more information",
                        ),
                    ),
                );
            } else {
                let ghost dpre = dirs@;
                if str_eq(ws[0].as_str(), "packages") {
                    let mut k: usize = 1;
                    while k < ws.len()
                        invariant
                            1 <= k <= ws@.len(),
                            dirs@ =~~= (DirectivesGh {
                                subpackages: dpre.subpackages + ws.deep_view().subrange(
                                    1,
                                    k as int,
                                ),
                                ..dpre
                            }),
                        decreases ws@.len() - k,
                    {
                        dirs.subpackages.push(ws[k].clone());
                        proof {
                            assert(ws.deep_view().subrange(1, k + 1) =~= ws.deep_view().subrange(
                                1,
                                k as int,
                            ).push(ws.deep_view()[k as int]));
                            assert(dpre.subpackages + ws.deep_view().subrange(1, k + 1) =~= (
                            dpre.subpackages + ws.deep_view().subrange(1, k as int)).push(
                                ws.deep_view()[k as int],
                            ));
                        }
                        k = k + 1;
                    }
                    proof {
                        assert(ws.deep_view().subrange(1, ws.deep_view().len() as int)
                            =~= ws.deep_view().skip(1));
                        assert(dirs@ =~~= spec_apply_line(dpre, dv[i as int])->Ok_0);
                    }
                } else if str_eq(ws[0].as_str(), "version") {
                    dirs.version = Some(ws[1].clone());
                    proof {
                        assert(dirs@ =~~= spec_apply_line(dpre, dv[i as int])->Ok_0);
                    }
                } else if str_eq(ws[0].as_str(), "language") {
                    dirs.language = Some(ws[1].clone());
                    proof {
                        assert(dirs@ =~~= spec_apply_line(dpre, dv[i as int])->Ok_0);
                    }
                } else if str_eq(ws[0].as_str(), "custom") {
                    dirs.custom = Some(ws[1].clone());
                    proof {
                        assert(dirs@ =~~= spec_apply_line(dpre, dv[i as int])->Ok_0);
                    }
                } else if str_eq(ws[0].as_str(), "name") {
                    dirs.name = Some(ws[1].clone());
                    proof {
                        assert(dirs@ =~~= spec_apply_line(dpre, dv[i as int])->Ok_0);
                    }
                } else {
                    proof {
                        lemma_gather_err(dv, i as int);
                    }
                    let mut m = String::from_str("unknown configuration keyword ");
                    m.append(ws[0].as_str());
                    m.append(", refer to nanparc(5)");
                    return Err(Error::Config(m));
                }
            }
        }
        i = i + 1;
    }
    proof {
        assert(lines.deep_view().subrange(0, n as int) =~= lines.deep_view());
    }
    if dirs.subpackages.len() > 0 && dirs.version.is_some() {
        return Err(Error::Config(String::from_str("cannot specify version on superpackage")));
    }
    if dirs.subpackages.len() > 0 && dirs.language.is_some() {
        return Err(Error::Config(String::from_str("cannot specify language on superpackage")));
    }
    if dirs.subpackages.len() == 0 && dirs.version.is_none() {
        return Err(Error::Config(String::from_str("config must have version or packages")));
    }
    Ok(dirs)
}

// ---------------------------------------------------------------------------
// Committing a version into the configuration text.
// ---------------------------------------------------------------------------

/// One line after the version commit: a line carrying the `version`
/// directive becomes `version <new>`; every other line is kept verbatim.
pub open spec fn spec_set_version_line(line: Seq<char>, v: Seq<char>) -> Seq<char> {
    if "version"@.len() <= line.len() && line.subrange(0, "version"@.len() as int) == "version"@ {
        "version "@ + v
    } else {
        line
    }
}

/// The lines joined back into a file text, one newline after each line.
pub open spec fn spec_join_lines(lines: Seq<Seq<char>>) -> Seq<char>
    decreases lines.len(),
{
    if lines.len() == 0 {
        Seq::empty()
    } else {
        spec_join_lines(lines.drop_last()) + lines.last() + "\n"@
    }
}

/// The whole configuration text after the version commit.
pub open spec fn spec_rewrite_config(text: Seq<char>, v: Seq<char>) -> Seq<char> {
    spec_join_lines(spec_lines(text).map_values(|line: Seq<char>| spec_set_version_line(line, v)))
}

/// Rewrites only the line carrying the `version` directive to hold the new
/// version, preserving every other line and its order verbatim.
pub fn rewrite_config(text: &str, version: &String) -> (r: String)
    ensures
        r@ == spec_rewrite_config(text@, version@),
{
    let lines = split_lines(text);
    let ghost mapped = spec_lines(text@).map_values(
        |line: Seq<char>| spec_set_version_line(line, version@),
    );
    let mut out = String::new();
    let n = lines.len();
    let mut i: usize = 0;
    proof {
        assert(out@ =~= spec_join_lines(mapped.subrange(0, 0)));
    }
    while i < n
        invariant
            0 <= i <= n,
            n == lines@.len(),
            lines.deep_view() == spec_lines(text@),
            mapped == spec_lines(text@).map_values(
                |line: Seq<char>| spec_set_version_line(line, version@),
            ),
            out@ == spec_join_lines(mapped.subrange(0, i as int)),
        decreases n - i,
    {
        proof {
            assert(mapped.subrange(0, i + 1).drop_last() =~= mapped.subrange(0, i as int));
            assert(mapped.subrange(0, i + 1).last() == mapped[i as int]);
            assert(lines.deep_view()[i as int] == lines@[i as int]@);
        }
        let line = &lines[i];
        if has_prefix(line.as_str(), "version") {
            out.append("version ");
            out.append(version.as_str());
        } else {
            out.append(line.as_str());
        }
        out.append("\n");
        proof {
            assert(out@ =~= spec_join_lines(mapped.subrange(0, i + 1)));
        }
        i = i + 1;
    }
    proof {
        assert(mapped.subrange(0, n as int) =~= mapped);
    }
    out
}

} // verus!
