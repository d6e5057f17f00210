use vstd::prelude::*;

verus! {

/// One node of a file tree, by its path relative to the tree's root.
#[derive(Debug)]
pub enum Entry {
    File { path: String, data: Vec<u8> },
    Dir { path: String },
}

impl Entry {
    pub open spec fn path_view(&self) -> Seq<char> {
        match self {
            Entry::File { path, .. } => path@,
            Entry::Dir { path } => path@,
        }
    }

    pub fn path(&self) -> (r: &String)
        ensures
            r@ == self.path_view(),
    {
        match self {
            Entry::File { path, .. } => path,
            Entry::Dir { path } => path,
        }
    }
}

/// `s` ends with a path separator.
pub open spec fn ends_with_slash(s: Seq<char>) -> bool {
    s.len() > 0 && s.last() == '/'
}

/// `s` with one trailing separator removed, if it has one.
pub open spec fn trim_slash(s: Seq<char>) -> Seq<char> {
    if ends_with_slash(s) {
        s.drop_last()
    } else {
        s
    }
}

/// `s` with a trailing separator, added unless already there.
pub open spec fn with_slash(s: Seq<char>) -> Seq<char> {
    if ends_with_slash(s) {
        s
    } else {
        s.push('/')
    }
}

pub fn ends_with_separator(s: &str) -> (r: bool)
    ensures
        r == ends_with_slash(s@),
{
    let n = s.unicode_len();
    n > 0 && s.get_char(n - 1) == '/'
}

pub fn trimmed(s: &str) -> (r: String)
    ensures
        r@ == trim_slash(s@),
{
    if ends_with_separator(s) {
        let n = s.unicode_len();
        String::from_str(s.substring_char(0, n - 1))
    } else {
        String::from_str(s)
    }
}

pub fn slashed(s: &str) -> (r: String)
    ensures
        r@ == with_slash(s@),
{
    if ends_with_separator(s) {
        String::from_str(s)
    } else {
        proof {
            reveal_strlit("/");
        }
        let r = String::from_str(s).concat("/");
        assert(r@ =~= s@.push('/'));
        r
    }
}

/// `base`, a separator, then `rel`.
pub fn join(base: &str, rel: &str) -> (r: String)
    ensures
        r@ == base@ + seq!['/'] + rel@,
{
    proof {
        reveal_strlit("/");
    }
    let r = String::from_str(base).concat("/").concat(rel);
    assert(r@ =~= base@ + seq!['/'] + rel@);
    r
}

} // verus!
