//! Image references of the shape `<registry>/<repository>:<tag>`,
//! for example `webassembly.azurecr.io/hello:v1`. Parsing locates the first
//! `/`, then the first `:` after it, and fails when either is missing or any
//! of the three parts is empty. The whole string is retained for identity.
use vstd::prelude::*;

verus! {

/// `i` is the first occurrence of `c` in `s` at or after `from`.
pub open spec fn found_at(s: Seq<char>, c: char, from: int, i: int) -> bool {
    &&& from <= i < s.len()
    &&& s[i] == c
    &&& forall|j: int| from <= j < i ==> s[j] != c
}

pub proof fn lemma_found_at_unique(s: Seq<char>, c: char, from: int, i1: int, i2: int)
    requires
        found_at(s, c, from, i1),
        found_at(s, c, from, i2),
    ensures
        i1 == i2,
{
    if i1 < i2 {
        assert(s[i1] != c);
    }
    if i2 < i1 {
        assert(s[i2] != c);
    }
}

/// The positions of the separators make a well-formed reference: the first
/// `/`, the first `:` after it, and no empty registry, repository or tag.
pub open spec fn is_reference_split(s: Seq<char>, slash: int, colon: int) -> bool {
    &&& found_at(s, '/', 0, slash)
    &&& found_at(s, ':', slash + 1, colon)
    &&& 0 < slash
    &&& slash + 1 < colon
    &&& colon + 1 < s.len()
}

/// The string parses as a reference.
pub open spec fn valid_reference(s: Seq<char>) -> bool {
    exists|slash: int, colon: int| is_reference_split(s, slash, colon)
}

/// The position of the first `/` of a valid reference.
pub open spec fn spec_slash(s: Seq<char>) -> int {
    choose|i: int| #[trigger] found_at(s, '/', 0, i)
}

/// The position of the first `:` after the first `/` of a valid reference.
pub open spec fn spec_colon(s: Seq<char>) -> int {
    choose|j: int| #[trigger] found_at(s, ':', spec_slash(s) + 1, j)
}

pub open spec fn registry_of(s: Seq<char>) -> Seq<char> {
    s.subrange(0, spec_slash(s))
}

pub open spec fn repository_of(s: Seq<char>) -> Seq<char> {
    s.subrange(spec_slash(s) + 1, spec_colon(s))
}

pub open spec fn tag_of(s: Seq<char>) -> Seq<char> {
    s.subrange(spec_colon(s) + 1, s.len() as int)
}

/// With a valid split given, the spec positions are exactly its witnesses.
pub proof fn lemma_split_positions(s: Seq<char>, slash: int, colon: int)
    requires
        is_reference_split(s, slash, colon),
    ensures
        valid_reference(s),
        spec_slash(s) == slash,
        spec_colon(s) == colon,
{
    assert(valid_reference(s));
    assert(found_at(s, '/', 0, spec_slash(s))) by {
        assert(found_at(s, '/', 0, slash));
    }
    lemma_found_at_unique(s, '/', 0, slash, spec_slash(s));
    assert(found_at(s, ':', slash + 1, spec_colon(s))) by {
        assert(found_at(s, ':', slash + 1, colon));
    }
    lemma_found_at_unique(s, ':', slash + 1, colon, spec_colon(s));
}

/// The first occurrence of `c` in `s` at or after `from`, in characters.
fn find_char_from(s: &str, c: char, from: usize) -> (r: Option<usize>)
    requires
        from <= s@.len(),
    ensures
        match r {
            Some(i) => found_at(s@, c, from as int, i as int),
            None => forall|j: int| from <= j < s@.len() ==> s@[j] != c,
        },
{
    let n = s.unicode_len();
    let mut i: usize = from;
    while i < n
        invariant
            n == s@.len(),
            from <= i <= n,
            forall|j: int| from <= j < i ==> s@[j] != c,
        decreases n - i,
    {
        if s.get_char(i) == c {
            return Some(i);
        }
        i = i + 1;
    }
    None
}

/// A parsed reference: the whole string plus the two separator positions,
/// counted in characters.
#[derive(Debug)]
pub struct Reference {
    whole: String,
    slash: usize,
    colon: usize,
}

impl View for Reference {
    type V = Seq<char>;

    closed spec fn view(&self) -> Seq<char> {
        self.whole@
    }
}

impl Reference {
    pub closed spec fn wf(&self) -> bool {
        is_reference_split(self.whole@, self.slash as int, self.colon as int)
    }

    /// A well-formed reference is a valid reference string.
    pub proof fn lemma_wf_valid(&self)
        requires
            self.wf(),
        ensures
            valid_reference(self@),
    {
    }

    /// Locate the first `/`, then the first `:` after it; fail when either
    /// is missing or the registry, repository or tag would be empty.
    pub fn parse(whole: String) -> (r: Result<Reference, ()>)
        ensures
            match r {
                Ok(rf) => rf@ == whole@ && rf.wf() && valid_reference(whole@),
                Err(_) => !valid_reference(whole@),
            },
    {
        let n = whole.as_str().unicode_len();
        let slash = match find_char_from(whole.as_str(), '/', 0) {
            Some(i) => i,
            None => {
                proof {
                    lemma_no_slash_invalid(whole@);
                }
                return Err(());
            },
        };
        let colon = match find_char_from(whole.as_str(), ':', slash + 1) {
            Some(i) => i,
            None => {
                proof {
                    lemma_no_colon_invalid(whole@, slash as int);
                }
                return Err(());
            },
        };
        if slash == 0 || colon == slash + 1 || colon + 1 == n {
            proof {
                lemma_bad_parts_invalid(whole@, slash as int, colon as int);
            }
            return Err(());
        }
        proof {
            assert(is_reference_split(whole@, slash as int, colon as int));
        }
        Ok(Reference { whole, slash, colon })
    }

    pub fn whole(&self) -> (r: &str)
        ensures
            r@ == self@,
    {
        self.whole.as_str()
    }

    /// Give the whole string back.
    pub fn into_string(self) -> (r: String)
        ensures
            r@ == self@,
    {
        self.whole
    }

    pub fn registry(&self) -> (r: &str)
        requires
            self.wf(),
        ensures
            r@ == registry_of(self@),
    {
        proof {
            lemma_split_positions(self.whole@, self.slash as int, self.colon as int);
        }
        self.whole.as_str().substring_char(0, self.slash)
    }

    pub fn repository(&self) -> (r: &str)
        requires
            self.wf(),
        ensures
            r@ == repository_of(self@),
    {
        proof {
            lemma_split_positions(self.whole@, self.slash as int, self.colon as int);
        }
        self.whole.as_str().substring_char(self.slash + 1, self.colon)
    }

    pub fn tag(&self) -> (r: &str)
        requires
            self.wf(),
        ensures
            r@ == tag_of(self@),
    {
        proof {
            lemma_split_positions(self.whole@, self.slash as int, self.colon as int);
        }
        let n = self.whole.as_str().unicode_len();
        self.whole.as_str().substring_char(self.colon + 1, n)
    }
}

impl Clone for Reference {
    fn clone(&self) -> (r: Self)
        ensures
            r@ == self@,
            r.wf() == self.wf(),
    {
        Reference { whole: self.whole.clone(), slash: self.slash, colon: self.colon }
    }
}

proof fn lemma_no_slash_invalid(s: Seq<char>)
    requires
        forall|j: int| 0 <= j < s.len() ==> s[j] != '/',
    ensures
        !valid_reference(s),
{
    if valid_reference(s) {
        let (slash, colon) = choose|slash: int, colon: int| is_reference_split(s, slash, colon);
        assert(s[slash] == '/');
    }
}

proof fn lemma_no_colon_invalid(s: Seq<char>, slash: int)
    requires
        found_at(s, '/', 0, slash),
        forall|j: int| slash + 1 <= j < s.len() ==> s[j] != ':',
    ensures
        !valid_reference(s),
{
    if valid_reference(s) {
        let (slash2, colon) = choose|slash2: int, colon: int| is_reference_split(s, slash2, colon);
        lemma_found_at_unique(s, '/', 0, slash, slash2);
        assert(s[colon] == ':');
    }
}

proof fn lemma_bad_parts_invalid(s: Seq<char>, slash: int, colon: int)
    requires
        found_at(s, '/', 0, slash),
        found_at(s, ':', slash + 1, colon),
        slash == 0 || colon == slash + 1 || colon + 1 == s.len(),
    ensures
        !valid_reference(s),
{
    if valid_reference(s) {
        let (slash2, colon2) = choose|slash2: int, colon2: int| is_reference_split(s, slash2, colon2);
        lemma_found_at_unique(s, '/', 0, slash, slash2);
        lemma_found_at_unique(s, ':', slash + 1, colon, colon2);
    }
}

/// A reference parsed into borrowed views of one string: the whole text and
/// its registry, repository and tag parts.
#[derive(Copy, Clone)]
pub struct ImageReference<'a> {
    pub whole: &'a str,
    pub registry: &'a str,
    pub repo: &'a str,
    pub tag: &'a str,
}

impl<'a> ImageReference<'a> {
    pub open spec fn wf(&self) -> bool {
        &&& valid_reference(self.whole@)
        &&& self.registry@ == registry_of(self.whole@)
        &&& self.repo@ == repository_of(self.whole@)
        &&& self.tag@ == tag_of(self.whole@)
    }

    /// Split one string into its three parts; fail on a malformed reference.
    pub fn parse(s: &'a String) -> (r: Result<ImageReference<'a>, ()>)
        ensures
            match r {
                Ok(ir) => ir.whole@ == s@ && ir.wf(),
                Err(_) => !valid_reference(s@),
            },
    {
        let text = s.as_str();
        let reference = Reference::parse(s.clone())?;
        proof {
            lemma_split_positions(s@, reference.slash as int, reference.colon as int);
        }
        let n = text.unicode_len();
        Ok(ImageReference {
            whole: text,
            registry: text.substring_char(0, reference.slash),
            repo: text.substring_char(reference.slash + 1, reference.colon),
            tag: text.substring_char(reference.colon + 1, n),
        })
    }
}

} // verus!
