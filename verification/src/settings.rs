//! Plain configuration values: crawl options, config file formats, and the
//! documentation component registry.

use vstd::prelude::*;

verus! {

/// Options governing which files a crawl visits.
#[derive(Debug)]
pub struct CrawlOptions {
    pub max_depth: Option<usize>,
    pub include_hidden: bool,
    pub include_patterns: Vec<String>,
    pub exclude_patterns: Vec<String>,
    pub git_mode: bool,
}

/// Two string lists hold the same texts in the same order.
pub open spec fn str_lists_eq(a: Seq<String>, b: Seq<String>) -> bool {
    crate::schema::strs_view(a) == crate::schema::strs_view(b)
}

/// Compares two string lists element by element.
#[verifier::loop_isolation(false)]
fn str_list_eq(a: &Vec<String>, b: &Vec<String>) -> (r: bool)
    ensures
        r == str_lists_eq(a@, b@),
{
    proof {
        crate::schema::lemma_strs_view_index(a@);
        crate::schema::lemma_strs_view_index(b@);
    }
    if a.len() != b.len() {
        proof {
            assert(crate::schema::strs_view(a@).len() != crate::schema::strs_view(b@).len());
        }
        return false;
    }
    let mut i: usize = 0;
    while i < a.len()
        invariant
            i <= a@.len(),
            a@.len() == b@.len(),
            forall|k: int| 0 <= k < i ==> #[trigger] a@[k]@ == b@[k]@,
        decreases a@.len() - i,
    {
        if !crate::strings::str_eq(a[i].as_str(), b[i].as_str()) {
            proof {
                assert(crate::schema::strs_view(a@)[i as int] != crate::schema::strs_view(
                    b@,
                )[i as int]);
            }
            return false;
        }
        i = i + 1;
    }
    proof {
        assert(crate::schema::strs_view(a@) =~= crate::schema::strs_view(b@));
    }
    true
}

impl Default for CrawlOptions {
    /// No depth bound, hidden files skipped, no patterns, git mode off.
    fn default() -> (r: Self)
        ensures
            r.max_depth is None,
            r.include_hidden == false,
            r.include_patterns@.len() == 0,
            r.exclude_patterns@.len() == 0,
            r.git_mode == false,
    {
        CrawlOptions {
            max_depth: None,
            include_hidden: false,
            include_patterns: Vec::new(),
            exclude_patterns: Vec::new(),
            git_mode: false,
        }
    }
}

impl PartialEq for CrawlOptions {
    /// Options are equal when every field carries the same value.
    fn eq(&self, other: &CrawlOptions) -> (r: bool) {
        let depth_eq = match (self.max_depth, other.max_depth) {
            (None, None) => true,
            (Some(a), Some(b)) => a == b,
            _ => false,
        };
        depth_eq && self.include_hidden == other.include_hidden && str_list_eq(
            &self.include_patterns,
            &other.include_patterns,
        ) && str_list_eq(&self.exclude_patterns, &other.exclude_patterns) && self.git_mode
            == other.git_mode
    }
}

impl vstd::std_specs::cmp::PartialEqSpecImpl for CrawlOptions {
    open spec fn obeys_eq_spec() -> bool {
        true
    }

    open spec fn eq_spec(&self, other: &CrawlOptions) -> bool {
        &&& self.max_depth == other.max_depth
        &&& self.include_hidden == other.include_hidden
        &&& str_lists_eq(self.include_patterns@, other.include_patterns@)
        &&& str_lists_eq(self.exclude_patterns@, other.exclude_patterns@)
        &&& self.git_mode == other.git_mode
    }
}

/// A configuration file format.
#[derive(Debug, Clone, Copy, PartialEq, Eq, Structural)]
pub enum FileType {
    Json,
    Toml,
    Yaml,
}

/// One documented component: where its documentation lives, relative to the
/// project location.
#[derive(Debug)]
pub struct Component {
    pub relative_path: String,
}

impl Default for Component {
    /// The reader's own documentation directory.
    fn default() -> (r: Self)
        ensures
            r.relative_path@ == "doc-reader/_docs"@,
    {
        Component { relative_path: "doc-reader/_docs".to_owned() }
    }
}

/// One registered project: its location and its documented components by
/// name.
#[derive(Debug)]
pub struct Project {
    pub location: String,
    pub components: Vec<(String, Component)>,
}

impl Default for Project {
    /// A single project holding the reader's own component.
    fn default() -> (r: Self)
        ensures
            r.location@ == "/home/user/repos/auto-doc"@,
            r.components@.len() == 1,
            r.components@[0].0@ == "doc-reader"@,
            r.components@[0].1.relative_path@ == "doc-reader/_docs"@,
    {
        let mut components: Vec<(String, Component)> = Vec::new();
        components.push(("doc-reader".to_owned(), Component::default()));
        Project { location: "/home/user/repos/auto-doc".to_owned(), components }
    }
}

} // verus!
