//! Include/exclude filtering of directory children.
//!
//! A child is tested by its bare name. Hidden entries (leading-dot names)
//! fall first when the scan skips them; then the name must miss every
//! exclude pattern, and, when an include set is present, match at least
//! one include pattern. Directory and file pattern sets are independent,
//! and one case-sensitivity flag governs all comparisons.

use vstd::prelude::*;

use crate::glob::fold_bytes;
use crate::glob::fold_bytes_exec;
use crate::glob::matches_any;
use crate::glob::matches_any_exec;
use crate::types::ConfigModel;
use crate::types::ScanConfig;
use crate::types::string_models;
use vstd::utf8::encode_utf8;

verus! {

/// ASCII code of `.`: the byte that opens a hidden name.
pub const DOT: u8 = 46;

/// A hidden entry: its name starts with a dot.
pub open spec fn is_hidden(name: Seq<u8>) -> bool {
    name.len() > 0 && name[0] == DOT
}

/// Compiled filter of one scan: the configuration's glob patterns as
/// byte strings, folded once for case-insensitive scans.
#[derive(Debug)]
pub struct PathFilter {
    pub case_sensitive: bool,
    pub skip_hidden: bool,
    pub dir_include: Vec<Vec<u8>>,
    pub dir_exclude: Vec<Vec<u8>>,
    pub file_include: Vec<Vec<u8>>,
    pub file_exclude: Vec<Vec<u8>>,
}

/// Mathematical model of a [`PathFilter`].
pub ghost struct FilterModel {
    pub case_sensitive: bool,
    pub skip_hidden: bool,
    pub dir_include: Seq<Seq<u8>>,
    pub dir_exclude: Seq<Seq<u8>>,
    pub file_include: Seq<Seq<u8>>,
    pub file_exclude: Seq<Seq<u8>>,
}

impl View for PathFilter {
    type V = FilterModel;

    open spec fn view(&self) -> FilterModel {
        FilterModel {
            case_sensitive: self.case_sensitive,
            skip_hidden: self.skip_hidden,
            dir_include: self.dir_include.deep_view(),
            dir_exclude: self.dir_exclude.deep_view(),
            file_include: self.file_include.deep_view(),
            file_exclude: self.file_exclude.deep_view(),
        }
    }
}

/// The byte form of a pattern list, folded under the given case
/// sensitivity.
pub open spec fn pattern_bytes(pats: Seq<Seq<char>>, case_sensitive: bool) -> Seq<Seq<u8>> {
    pats.map_values(|s: Seq<char>| fold_bytes(case_sensitive, encode_utf8(s)))
}

/// The filter a configuration compiles to.
pub open spec fn filter_of(c: ConfigModel) -> FilterModel {
    FilterModel {
        case_sensitive: c.case_sensitive,
        skip_hidden: c.skip_hidden,
        dir_include: pattern_bytes(c.dir_include, c.case_sensitive),
        dir_exclude: pattern_bytes(c.dir_exclude, c.case_sensitive),
        file_include: pattern_bytes(c.file_include, c.case_sensitive),
        file_exclude: pattern_bytes(c.file_exclude, c.case_sensitive),
    }
}

/// A name passes one include/exclude pair: it misses every exclude
/// pattern, and matches an include pattern whenever the include set is
/// non-empty.
pub open spec fn passes(inc: Seq<Seq<u8>>, exc: Seq<Seq<u8>>, name: Seq<u8>) -> bool {
    !matches_any(exc, name) && (inc.len() == 0 || matches_any(inc, name))
}

/// Whether the filter accepts a child of the given name and kind.
pub open spec fn accepts(f: FilterModel, name: Seq<u8>, is_dir: bool) -> bool {
    if f.skip_hidden && is_hidden(name) {
        false
    } else {
        let n = fold_bytes(f.case_sensitive, name);
        if is_dir {
            passes(f.dir_include, f.dir_exclude, n)
        } else {
            passes(f.file_include, f.file_exclude, n)
        }
    }
}

/// Compiles one pattern list to folded byte strings.
fn prepare_patterns(pats: &Vec<String>, case_sensitive: bool) -> (r: Vec<Vec<u8>>)
    ensures
        r.deep_view() == pattern_bytes(string_models(pats@), case_sensitive),
{
    let mut out: Vec<Vec<u8>> = Vec::new();
    let mut i: usize = 0;
    while i < pats.len()
        invariant
            i <= pats@.len(),
            out.deep_view() == pattern_bytes(string_models(pats@.take(i as int)), case_sensitive),
        decreases pats@.len() - i,
    {
        let folded = fold_bytes_exec(case_sensitive, pats[i].as_str().as_bytes());
        let ghost prev = out.deep_view();
        out.push(folded);
        proof {
            assert(out.deep_view() =~~= prev.push(folded@));
            assert(folded@ == fold_bytes(case_sensitive, encode_utf8(pats@[i as int]@)));
            assert(pattern_bytes(string_models(pats@.take(i + 1 as int)), case_sensitive) =~~= prev.push(
                folded@,
            ));
        }
        i = i + 1;
    }
    proof {
        assert(pats@.take(pats@.len() as int) =~= pats@);
    }
    out
}

impl PathFilter {
    /// Compiles the configuration's pattern lists into a filter.
    pub fn new(c: &ScanConfig) -> (r: PathFilter)
        ensures
            r@ == filter_of(c@),
    {
        let r = PathFilter {
            case_sensitive: c.case_sensitive,
            skip_hidden: c.skip_hidden,
            dir_include: prepare_patterns(&c.dir_include, c.case_sensitive),
            dir_exclude: prepare_patterns(&c.dir_exclude, c.case_sensitive),
            file_include: prepare_patterns(&c.file_include, c.case_sensitive),
            file_exclude: prepare_patterns(&c.file_exclude, c.case_sensitive),
        };
        r
    }

    /// Tests a child's bare name against the filter.
    pub fn matches(&self, name: &str, is_dir: bool) -> (r: bool)
        ensures
            r == accepts(self@, encode_utf8(name@), is_dir),
    {
        let bytes = name.as_bytes();
        if self.skip_hidden && bytes.len() > 0 && bytes[0] == DOT {
            return false;
        }
        let folded = fold_bytes_exec(self.case_sensitive, bytes);
        if is_dir {
            !matches_any_exec(&self.dir_exclude, folded.as_slice()) && (self.dir_include.len()
                == 0 || matches_any_exec(&self.dir_include, folded.as_slice()))
        } else {
            !matches_any_exec(&self.file_exclude, folded.as_slice()) && (self.file_include.len()
                == 0 || matches_any_exec(&self.file_include, folded.as_slice()))
        }
    }
}

} // verus!
