//! A catalog of known classes, indexed by internal name, package and simple name.
use vstd::prelude::*;
use vstd::string::*;
use crate::platform::{classes, package_name_of, platform_classes, simple_name};
use crate::text::{chars_of, concat_str, find_last, last_index_of, lemma_last_index_of, replace_char, replace_char_exec, str_eq, string_of, subrange_of};

verus! {

/// Unicode `White_Space` characters, as `char::is_whitespace` accepts them.
pub open spec fn is_space(c: char) -> bool {
    c == '\t' || c == '\n' || c == '\u{0B}' || c == '\u{0C}' || c == '\r' || c == ' ' || c
        == '\u{85}' || c == '\u{A0}' || c == '\u{1680}' || ('\u{2000}' <= c && c <= '\u{200A}')
        || c == '\u{2028}' || c == '\u{2029}' || c == '\u{202F}' || c == '\u{205F}' || c
        == '\u{3000}'
}

pub fn is_space_exec(c: char) -> (r: bool)
    ensures
        r == is_space(c),
{
    c == '\t' || c == '\n' || c == '\u{0B}' || c == '\u{0C}' || c == '\r' || c == ' ' || c
        == '\u{85}' || c == '\u{A0}' || c == '\u{1680}' || ('\u{2000}' <= c && c <= '\u{200A}')
        || c == '\u{2028}' || c == '\u{2029}' || c == '\u{202F}' || c == '\u{205F}' || c
        == '\u{3000}'
}

/// `s` without leading whitespace.
pub open spec fn trim_start(s: Seq<char>) -> Seq<char>
    decreases s.len(),
{
    if s.len() > 0 && is_space(s[0]) {
        trim_start(s.drop_first())
    } else {
        s
    }
}

/// `s` without trailing whitespace.
pub open spec fn trim_end(s: Seq<char>) -> Seq<char>
    decreases s.len(),
{
    if s.len() > 0 && is_space(s.last()) {
        trim_end(s.drop_last())
    } else {
        s
    }
}

pub open spec fn class_suffix() -> Seq<char> {
    ".class"@
}

/// `s` with every trailing `.class` removed (`trim_end_matches(".class")`).
pub open spec fn trim_class_suffix(s: Seq<char>) -> Seq<char>
    decreases s.len(),
{
    if s.len() >= 6 && s.subrange(s.len() - 6, s.len() as int) == class_suffix() {
        trim_class_suffix(s.subrange(0, s.len() - 6))
    } else {
        s
    }
}

/// The internal name a catalog entry is stored under, if the name is a class at all.
pub open spec fn normalize(name: Seq<char>) -> Option<Seq<char>> {
    let n = trim_class_suffix(trim_end(trim_start(name)));
    if n.len() == 0 || n[0] == '[' || n == "module-info"@ {
        None
    } else {
        Some(replace_char(n, '.', '/'))
    }
}

fn trim_chars(v: &Vec<char>) -> (r: Vec<char>)
    ensures
        r@ == trim_end(trim_start(v@)),
{
    let mut start: usize = 0;
    assert(v@.subrange(0, v@.len() as int) =~= v@);
    while start < v.len() && is_space_exec(v[start])
        invariant
            start <= v@.len(),
            trim_start(v@) == trim_start(v@.subrange(start as int, v@.len() as int)),
        decreases v@.len() - start,
    {
        assert(v@.subrange(start as int, v@.len() as int).drop_first() =~= v@.subrange(
            start + 1,
            v@.len() as int,
        ));
        start = start + 1;
    }
    let ghost mid = v@.subrange(start as int, v@.len() as int);
    assert(trim_start(v@) == mid);
    let mut end: usize = v.len();
    while end > start && is_space_exec(v[end - 1])
        invariant
            start <= end <= v@.len(),
            mid == v@.subrange(start as int, v@.len() as int),
            trim_end(mid) == trim_end(v@.subrange(start as int, end as int)),
        decreases end,
    {
        assert(v@.subrange(start as int, end as int).drop_last() =~= v@.subrange(
            start as int,
            end - 1,
        ));
        end = end - 1;
    }
    subrange_of(v, start, end)
}

fn ends_with_class(v: &Vec<char>, len: usize) -> (r: bool)
    requires
        len <= v@.len(),
    ensures
        r == (len >= 6 && v@.subrange(0, len as int).subrange(len - 6, len as int)
            == class_suffix()),
{
    proof {
        reveal_strlit(".class");
    }
    if len < 6 {
        return false;
    }
    let r = v[len - 6] == '.' && v[len - 5] == 'c' && v[len - 4] == 'l' && v[len - 3] == 'a'
        && v[len - 2] == 's' && v[len - 1] == 's';
    proof {
        let t = v@.subrange(0, len as int).subrange(len - 6, len as int);
        if r {
            assert(t =~= class_suffix());
        } else {
            if t == class_suffix() {
                assert(t[0] == '.' && t[1] == 'c' && t[2] == 'l' && t[3] == 'a' && t[4] == 's'
                    && t[5] == 's');
            }
        }
    }
    r
}

fn is_module_info(v: &Vec<char>) -> (r: bool)
    ensures
        r == (v@ == "module-info"@),
{
    let s = string_of(v.as_slice());
    str_eq(s.as_str(), "module-info")
}

/// Trims whitespace and `.class` suffixes, refuses array descriptors and
/// `module-info`, and turns `.` into `/`.
pub fn normalize_internal_name(name: &str) -> (r: Option<String>)
    ensures
        r matches Some(s) ==> normalize(name@) == Some(s@),
        r is None ==> normalize(name@) is None,
{
    let cs = chars_of(name);
    let t = trim_chars(&cs);
    let mut len = t.len();
    assert(t@.subrange(0, len as int) =~= t@);
    while ends_with_class(&t, len)
        invariant
            len <= t@.len(),
            trim_class_suffix(t@) == trim_class_suffix(t@.subrange(0, len as int)),
        decreases len,
    {
        assert(t@.subrange(0, len as int).subrange(0, len - 6) =~= t@.subrange(0, len - 6));
        len = len - 6;
    }
    let n = subrange_of(&t, 0, len);
    assert(n@ == trim_class_suffix(t@));
    if n.len() == 0 || n[0] == '[' || is_module_info(&n) {
        return None;
    }
    let s = string_of(n.as_slice());
    Some(replace_char_exec(s.as_str(), '.', '/'))
}

/// The models of a vector of strings.
pub open spec fn views(v: Seq<String>) -> Seq<Seq<char>> {
    v.map_values(|s: String| s@)
}

pub open spec fn has_package(c: Seq<char>) -> bool {
    last_index_of(c, '/') is Some
}

/// What a simple name resolves to.
#[derive(Debug)]
enum SimpleName {
    Unique(String),
    Ambiguous,
}

pub enum SimpleModel {
    Unique(Seq<char>),
    Ambiguous,
}

spec fn simple_view(s: SimpleName) -> SimpleModel {
    match s {
        SimpleName::Unique(n) => SimpleModel::Unique(n@),
        SimpleName::Ambiguous => SimpleModel::Ambiguous,
    }
}

/// Known classes, with their packages and simple names.
#[derive(Debug)]
pub struct ClassCatalog {
    classes: Vec<String>,
    packages: Vec<String>,
    simple_keys: Vec<String>,
    simple_vals: Vec<SimpleName>,
}

impl ClassCatalog {
    /// The internal names of the classes in the catalog.
    pub closed spec fn class_set(&self) -> Set<Seq<char>> {
        views(self.classes@).to_set()
    }

    /// Classes of the catalog whose simple name is `s`.
    pub open spec fn named(&self, s: Seq<char>) -> Set<Seq<char>> {
        self.class_set().filter(|c: Seq<char>| simple_name(c) == s)
    }

    closed spec fn entry_ok(&self, k: int) -> bool {
        let key = self.simple_keys@[k]@;
        match simple_view(self.simple_vals@[k]) {
            SimpleModel::Unique(u) => self.class_set().contains(u) && simple_name(u) == key
                && forall|c: Seq<char>|
                #![trigger self.class_set().contains(c)]
                self.class_set().contains(c) && simple_name(c) == key ==> c == u,
            SimpleModel::Ambiguous => exists|c1: Seq<char>, c2: Seq<char>|
                #![trigger self.class_set().contains(c1), self.class_set().contains(c2)]
                self.class_set().contains(c1) && self.class_set().contains(c2) && c1 != c2
                    && simple_name(c1) == key && simple_name(c2) == key,
        }
    }

    /// The catalog's internal consistency: no duplicates, packages and simple
    /// names are exactly those of the classes, and each simple name records
    /// whether it is unique.
    pub closed spec fn wf(&self) -> bool {
        &&& views(self.classes@).no_duplicates()
        &&& views(self.packages@).no_duplicates()
        &&& views(self.simple_keys@).no_duplicates()
        &&& self.simple_keys@.len() == self.simple_vals@.len()
        &&& forall|p: Seq<char>|
            #![trigger views(self.packages@).contains(p)]
            views(self.packages@).contains(p) <==> exists|c: Seq<char>|
                #![trigger self.class_set().contains(c)]
                self.class_set().contains(c) && has_package(c) && package_name_of(c) == p
        &&& forall|s: Seq<char>|
            #![trigger views(self.simple_keys@).contains(s)]
            views(self.simple_keys@).contains(s) <==> exists|c: Seq<char>|
                #![trigger self.class_set().contains(c)]
                self.class_set().contains(c) && simple_name(c) == s
        &&& forall|k: int| 0 <= k < self.simple_keys@.len() ==> #[trigger] self.entry_ok(k)
    }

    /// An empty catalog.
    pub fn empty() -> (r: ClassCatalog)
        ensures
            r.wf(),
            r.class_set() == Set::<Seq<char>>::empty(),
    {
        let r = ClassCatalog {
            classes: Vec::new(),
            packages: Vec::new(),
            simple_keys: Vec::new(),
            simple_vals: Vec::new(),
        };
        assert(views(r.classes@).to_set() =~= Set::<Seq<char>>::empty());
        r
    }
}

/// Position of `x` in `v`, by model.
fn index_of(v: &Vec<String>, x: &str) -> (r: Option<usize>)
    ensures
        r matches Some(i) ==> i < v@.len() && v@[i as int]@ == x@,
        r is None ==> !views(v@).contains(x@),
{
    let mut i: usize = 0;
    while i < v.len()
        invariant
            i <= v@.len(),
            forall|j: int| 0 <= j < i ==> v@[j]@ != x@,
        decreases v@.len() - i,
    {
        if str_eq(v[i].as_str(), x) {
            return Some(i);
        }
        i = i + 1;
    }
    proof {
        if views(v@).contains(x@) {
            let j = choose|j: int| 0 <= j < views(v@).len() && views(v@)[j] == x@;
            assert(v@[j]@ == x@);
        }
    }
    None
}

impl Default for ClassCatalog {
    fn default() -> (r: Self)
        ensures
            r.wf(),
            r.class_set() == Set::<Seq<char>>::empty(),
    {
        ClassCatalog::empty()
    }
}

proof fn lemma_views_push(v: Seq<String>, s: String)
    ensures
        views(v.push(s)) == views(v).push(s@),
        views(v.push(s)).to_set() == views(v).to_set().insert(s@),
{
    broadcast use vstd::seq_lib::group_seq_properties;

    assert(views(v.push(s)) =~= views(v).push(s@));
    assert(views(v.push(s)).to_set() =~= views(v).to_set().insert(s@));
}

proof fn lemma_views_index(v: Seq<String>, i: int)
    requires
        0 <= i < v.len(),
    ensures
        views(v)[i] == v[i]@,
        views(v).contains(v[i]@),
        views(v).to_set().contains(v[i]@),
{
    assert(views(v)[i] == v[i]@);
}

impl ClassCatalog {
    /// Whether the catalog holds a class with this internal name.
    pub fn contains_internal_class(&self, internal_name: &str) -> (r: bool)
        ensures
            r == self.class_set().contains(internal_name@),
    {
        match index_of(&self.classes, internal_name) {
            Some(i) => {
                proof {
                    lemma_views_index(self.classes@, i as int);
                }
                true
            },
            None => false,
        }
    }

    /// Whether some class of the catalog lies in this package.
    pub fn contains_package(&self, package: &str) -> (r: bool)
        requires
            self.wf(),
        ensures
            r == exists|c: Seq<char>|
                #![trigger self.class_set().contains(c)]
                self.class_set().contains(c) && has_package(c) && package_name_of(c) == package@,
    {
        match index_of(&self.packages, package) {
            Some(i) => {
                proof {
                    lemma_views_index(self.packages@, i as int);
                }
                true
            },
            None => false,
        }
    }

    /// Adds a class by internal name (`a/b/C`, `a.b.C` or `a/b/C.class`); names
    /// that are not classes (empty, array descriptors, `module-info`) are ignored.
    pub fn insert_internal_class(&mut self, internal_name: &str)
        requires
            old(self).wf(),
        ensures
            final(self).wf(),
            final(self).class_set() == match normalize(internal_name@) {
                Some(n) => old(self).class_set().insert(n),
                None => old(self).class_set(),
            },
    {
        let n = match normalize_internal_name(internal_name) {
            Some(n) => n,
            None => return ,
        };
        if let Some(i) = index_of(&self.classes, n.as_str()) {
            proof {
                lemma_views_index(self.classes@, i as int);
                assert(self.class_set().insert(n@) =~= self.class_set());
            }
            return ;
        }
        let cs = chars_of(n.as_str());
        proof {
            lemma_last_index_of(cs@, '/');
        }
        let (simple, pkg) = match find_last(&cs, '/') {
            Some(i) => {
                let p = string_of(subrange_of(&cs, 0, i).as_slice());
                let s = string_of(subrange_of(&cs, i + 1, cs.len()).as_slice());
                (s, Some(p))
            },
            None => (n.clone(), None),
        };
        assert(simple@ == simple_name(n@));
        assert(pkg matches Some(p) ==> has_package(n@) && p@ == package_name_of(n@));
        assert(pkg is None ==> !has_package(n@));
        let ghost old_classes = self.classes@;
        let ghost old_packages = self.packages@;
        self.classes.push(n.clone());
        proof {
            lemma_views_push(old_classes, n);
        }
        let ghost mid_packages = self.packages@;
        if let Some(p) = pkg {
            match index_of(&self.packages, p.as_str()) {
                None => {
                    self.packages.push(p);
                    proof {
                        lemma_views_push(old_packages, self.packages@.last());
                    }
                },
                Some(j) => {
                    proof {
                        lemma_views_index(self.packages@, j as int);
                        assert(views(self.packages@).to_set().insert(p@) =~= views(
                            self.packages@,
                        ).to_set());
                    }
                },
            }
        }
        self.insert_simple_name(simple, &n);
        proof {
            self.lemma_after_insert(*old(self), n@);
        }
    }

    proof fn lemma_after_insert(&self, prev: ClassCatalog, n: Seq<char>)
        requires
            prev.wf(),
            !prev.class_set().contains(n),
            self.class_set() == prev.class_set().insert(n),
            views(self.classes@).no_duplicates(),
            views(self.packages@).no_duplicates(),
            has_package(n) ==> views(self.packages@).to_set() == views(
                prev.packages@,
            ).to_set().insert(package_name_of(n)),
            !has_package(n) ==> self.packages@ == prev.packages@,
            self.simple_keys@.len() == self.simple_vals@.len(),
            views(self.simple_keys@).no_duplicates(),
            self.simple_keys@.len() >= prev.simple_keys@.len(),
            forall|k: int|
                0 <= k < prev.simple_keys@.len() ==> #[trigger] self.simple_keys@[k]
                    == prev.simple_keys@[k],
            views(self.simple_keys@).to_set() == views(prev.simple_keys@).to_set().insert(
                simple_name(n),
            ),
            forall|k: int|
                0 <= k < prev.simple_keys@.len() && prev.simple_keys@[k]@ != simple_name(n)
                    ==> self.simple_keys@[k] == prev.simple_keys@[k] && simple_view(
                    #[trigger] self.simple_vals@[k],
                ) == simple_view(prev.simple_vals@[k]),
            forall|k: int|
                0 <= k < self.simple_keys@.len() && self.simple_keys@[k]@ == simple_name(n)
                    ==> match simple_view(#[trigger] self.simple_vals@[k]) {
                    SimpleModel::Unique(u) => u == n && (!views(prev.simple_keys@).contains(
                        simple_name(n),
                    ) || exists|j: int|
                        0 <= j < prev.simple_keys@.len() && prev.simple_keys@[j]@ == simple_name(
                            n,
                        ) && simple_view(prev.simple_vals@[j]) == SimpleModel::Unique(n)),
                    SimpleModel::Ambiguous => exists|j: int|
                        0 <= j < prev.simple_keys@.len() && prev.simple_keys@[j]@ == simple_name(
                            n,
                        ) && (simple_view(prev.simple_vals@[j]) matches SimpleModel::Unique(u)
                            ==> u != n),
                },
        ensures
            self.wf(),
    {
        let sn = simple_name(n);
        assert forall|p: Seq<char>|
            #![trigger views(self.packages@).contains(p)]
            views(self.packages@).contains(p) <==> exists|c: Seq<char>|
                #![trigger self.class_set().contains(c)]
                self.class_set().contains(c) && has_package(c) && package_name_of(c) == p by {
            assert(views(self.packages@).contains(p) == views(self.packages@).to_set().contains(p));
            assert(views(prev.packages@).contains(p) == views(prev.packages@).to_set().contains(p));
            if views(prev.packages@).contains(p) {
                let c = choose|c: Seq<char>|
                    #![trigger prev.class_set().contains(c)]
                    prev.class_set().contains(c) && has_package(c) && package_name_of(c) == p;
                assert(self.class_set().contains(c));
            }
            if has_package(n) && package_name_of(n) == p {
                assert(self.class_set().contains(n));
            }
            if exists|c: Seq<char>|
                #![trigger self.class_set().contains(c)]
                self.class_set().contains(c) && has_package(c) && package_name_of(c) == p {
                let c = choose|c: Seq<char>|
                    #![trigger self.class_set().contains(c)]
                    self.class_set().contains(c) && has_package(c) && package_name_of(c) == p;
                if c != n {
                    assert(prev.class_set().contains(c));
                }
            }
        }
        assert forall|s: Seq<char>|
            #![trigger views(self.simple_keys@).contains(s)]
            views(self.simple_keys@).contains(s) <==> exists|c: Seq<char>|
                #![trigger self.class_set().contains(c)]
                self.class_set().contains(c) && simple_name(c) == s by {
            assert(views(self.simple_keys@).contains(s) == views(self.simple_keys@).to_set().contains(s));
            assert(views(prev.simple_keys@).contains(s) == views(prev.simple_keys@).to_set().contains(s));
            if views(prev.simple_keys@).contains(s) {
                let c = choose|c: Seq<char>|
                    #![trigger prev.class_set().contains(c)]
                    prev.class_set().contains(c) && simple_name(c) == s;
                assert(self.class_set().contains(c));
            }
            if s == sn {
                assert(self.class_set().contains(n));
            }
            if exists|c: Seq<char>|
                #![trigger self.class_set().contains(c)]
                self.class_set().contains(c) && simple_name(c) == s {
                let c = choose|c: Seq<char>|
                    #![trigger self.class_set().contains(c)]
                    self.class_set().contains(c) && simple_name(c) == s;
                if c != n {
                    assert(prev.class_set().contains(c));
                }
            }
        }
        assert forall|k: int| 0 <= k < self.simple_keys@.len() implies #[trigger] self.entry_ok(
            k,
        ) by {
            let key = self.simple_keys@[k]@;
            if key == sn {
                match simple_view(self.simple_vals@[k]) {
                    SimpleModel::Unique(u) => {
                        if views(prev.simple_keys@).contains(sn) {
                            let j = choose|j: int|
                                0 <= j < prev.simple_keys@.len() && prev.simple_keys@[j]@ == sn
                                    && simple_view(prev.simple_vals@[j]) == SimpleModel::Unique(n);
                            assert(prev.entry_ok(j));
                        } else {
                            assert forall|c: Seq<char>|
                                #![trigger self.class_set().contains(c)]
                                self.class_set().contains(c) && simple_name(c) == key implies c
                                == u by {
                                if c != n {
                                    assert(prev.class_set().contains(c));
                                    assert(views(prev.simple_keys@).contains(sn));
                                }
                            }
                            assert(self.class_set().contains(n));
                        }
                    },
                    SimpleModel::Ambiguous => {
                        let j = choose|j: int|
                            0 <= j < prev.simple_keys@.len() && prev.simple_keys@[j]@ == sn && (
                            simple_view(prev.simple_vals@[j]) matches SimpleModel::Unique(u) ==> u
                                != n);
                        assert(prev.entry_ok(j));
                        match simple_view(prev.simple_vals@[j]) {
                            SimpleModel::Unique(u) => {
                                assert(self.class_set().contains(u));
                                assert(self.class_set().contains(n));
                            },
                            SimpleModel::Ambiguous => {
                                let (c1, c2) = choose|c1: Seq<char>, c2: Seq<char>|
                                    #![trigger prev.class_set().contains(c1), prev.class_set().contains(c2)]
                                    prev.class_set().contains(c1) && prev.class_set().contains(c2)
                                        && c1 != c2 && simple_name(c1) == sn && simple_name(c2)
                                        == sn;
                                assert(self.class_set().contains(c1));
                                assert(self.class_set().contains(c2));
                            },
                        }
                    },
                }
            } else {
                assert(views(self.simple_keys@)[k] == key);
                assert(views(self.simple_keys@).contains(key));
                assert(views(self.simple_keys@).to_set().contains(key));
                assert(views(prev.simple_keys@).to_set().contains(key));
                let j = choose|j: int|
                    0 <= j < views(prev.simple_keys@).len() && views(prev.simple_keys@)[j] == key;
                assert(prev.simple_keys@[j]@ == key);
                assert(self.simple_keys@[j] == prev.simple_keys@[j]);
                assert(views(prev.simple_keys@)[j] == views(self.simple_keys@)[j]);
                assert(views(self.simple_keys@)[k] == views(self.simple_keys@)[j]);
                assert(j == k);
                assert(prev.entry_ok(k));
                match simple_view(self.simple_vals@[k]) {
                    SimpleModel::Unique(u) => {
                        assert(self.class_set().contains(u));
                        assert forall|c: Seq<char>|
                            #![trigger self.class_set().contains(c)]
                            self.class_set().contains(c) && simple_name(c) == key implies c
                            == u by {
                            if c != n {
                                assert(prev.class_set().contains(c));
                            }
                        }
                    },
                    SimpleModel::Ambiguous => {
                        let (c1, c2) = choose|c1: Seq<char>, c2: Seq<char>|
                            #![trigger prev.class_set().contains(c1), prev.class_set().contains(c2)]
                            prev.class_set().contains(c1) && prev.class_set().contains(c2) && c1
                                != c2 && simple_name(c1) == key && simple_name(c2) == key;
                        assert(self.class_set().contains(c1));
                        assert(self.class_set().contains(c2));
                    },
                }
            }
        }
    }

    /// `c` is the one class of the catalog whose simple name is `s`.
    pub open spec fn only_class_named(&self, c: Seq<char>, s: Seq<char>) -> bool {
        &&& self.class_set().contains(c)
        &&& simple_name(c) == s
        &&& forall|d: Seq<char>|
            #![trigger self.class_set().contains(d)]
            self.class_set().contains(d) && simple_name(d) == s ==> d == c
    }

    /// The catalog of all platform classes.
    pub fn platform() -> (r: ClassCatalog)
        ensures
            r.wf(),
            r.class_set() == Set::new(
                |x: Seq<char>|
                    exists|i: int|
                        0 <= i < platform_classes().len() && normalize(
                            #[trigger] platform_classes()[i],
                        ) == Some(x),
            ),
    {
        let mut catalog = ClassCatalog::empty();
        let names = classes();
        let mut k: usize = 0;
        while k < names.len()
            invariant
                names@.map_values(|s: &str| s@) == platform_classes(),
                k <= names@.len(),
                catalog.wf(),
                catalog.class_set() == Set::new(
                    |x: Seq<char>|
                        exists|i: int|
                            0 <= i < k && normalize(#[trigger] platform_classes()[i]) == Some(x),
                ),
            decreases names@.len() - k,
        {
            assert(platform_classes()[k as int] == names[k as int]@);
            catalog.insert_internal_class(names[k]);
            proof {
                assert(catalog.class_set() =~= Set::new(
                    |x: Seq<char>|
                        exists|i: int|
                            0 <= i < k + 1 && normalize(#[trigger] platform_classes()[i]) == Some(
                                x,
                            ),
                ));
            }
            k = k + 1;
        }
        catalog
    }

    /// Whether an import resolves: a wildcard import names a known package, any
    /// other import a known class (`.` separated).
    pub fn resolve_import(&self, path: &str, is_wildcard: bool) -> (r: bool)
        requires
            self.wf(),
        ensures
            r == if is_wildcard {
                exists|c: Seq<char>|
                    #![trigger self.class_set().contains(c)]
                    self.class_set().contains(c) && has_package(c) && package_name_of(c)
                        == replace_char(path@, '.', '/')
            } else {
                self.class_set().contains(replace_char(path@, '.', '/'))
            },
    {
        let internal_name = replace_char_exec(path, '.', '/');
        if is_wildcard {
            self.contains_package(internal_name.as_str())
        } else {
            self.contains_internal_class(internal_name.as_str())
        }
    }

    fn stored(&self, internal_name: &str) -> (r: Option<&str>)
        ensures
            r matches Some(c) ==> c@ == internal_name@ && self.class_set().contains(c@),
            r is None ==> !self.class_set().contains(internal_name@),
    {
        match index_of(&self.classes, internal_name) {
            Some(i) => {
                proof {
                    lemma_views_index(self.classes@, i as int);
                }
                Some(self.classes[i].as_str())
            },
            None => None,
        }
    }

    /// The class named by a `.` or `/` separated qualified name.
    pub fn resolve_qualified_name(&self, name: &str) -> (r: Option<&str>)
        ensures
            r matches Some(c) ==> c@ == replace_char(name@, '.', '/') && self.class_set().contains(
                c@,
            ),
            r is None ==> !self.class_set().contains(replace_char(name@, '.', '/')),
    {
        let internal_name = replace_char_exec(name, '.', '/');
        self.stored(internal_name.as_str())
    }

    /// The class `java/lang/<simple_name>`, if known.
    pub fn resolve_java_lang(&self, simple: &str) -> (r: Option<&str>)
        ensures
            r matches Some(c) ==> c@ == "java/lang/"@ + simple@ && self.class_set().contains(c@),
            r is None ==> !self.class_set().contains("java/lang/"@ + simple@),
    {
        let internal_name = concat_str("java/lang/", simple);
        self.stored(internal_name.as_str())
    }

    /// The class with this simple name, when exactly one class of the catalog has it.
    pub fn resolve_simple_name(&self, simple: &str) -> (r: Option<&str>)
        requires
            self.wf(),
        ensures
            r matches Some(c) ==> self.only_class_named(c@, simple@),
            r is None ==> forall|c: Seq<char>| !self.only_class_named(c, simple@),
    {
        match index_of(&self.simple_keys, simple) {
            Some(i) => {
                proof {
                    lemma_views_index(self.simple_keys@, i as int);
                    assert(self.entry_ok(i as int));
                }
                match &self.simple_vals[i] {
                    SimpleName::Unique(name) => Some(name.as_str()),
                    SimpleName::Ambiguous => {
                        proof {
                            let (c1, c2) = choose|c1: Seq<char>, c2: Seq<char>|
                                #![trigger self.class_set().contains(c1), self.class_set().contains(c2)]
                                self.class_set().contains(c1) && self.class_set().contains(c2)
                                    && c1 != c2 && simple_name(c1) == simple@ && simple_name(c2)
                                    == simple@;
                            assert forall|c: Seq<char>| !self.only_class_named(c, simple@) by {
                                if self.only_class_named(c, simple@) {
                                    assert(c1 == c);
                                    assert(c2 == c);
                                }
                            }
                        }
                        None
                    },
                }
            },
            None => {
                proof {
                    assert forall|c: Seq<char>| !self.only_class_named(c, simple@) by {
                        if self.only_class_named(c, simple@) {
                            assert(views(self.simple_keys@).contains(simple@));
                        }
                    }
                }
                None
            },
        }
    }

    fn insert_simple_name(&mut self, simple: String, internal_name: &String)
        requires
            old(self).simple_keys@.len() == old(self).simple_vals@.len(),
            views(old(self).simple_keys@).no_duplicates(),
        ensures
            final(self).classes == old(self).classes,
            final(self).packages == old(self).packages,
            final(self).simple_keys@.len() == final(self).simple_vals@.len(),
            views(final(self).simple_keys@).no_duplicates(),
            final(self).simple_keys@.len() >= old(self).simple_keys@.len(),
            forall|k: int|
                0 <= k < old(self).simple_keys@.len() ==> #[trigger] final(self).simple_keys@[k]
                    == old(self).simple_keys@[k],
            views(final(self).simple_keys@).to_set() == views(old(self).simple_keys@).to_set().insert(
                simple@,
            ),
            forall|k: int|
                0 <= k < old(self).simple_keys@.len() && old(self).simple_keys@[k]@ != simple@
                    ==> final(self).simple_keys@[k] == old(self).simple_keys@[k] && simple_view(
                    #[trigger] final(self).simple_vals@[k],
                ) == simple_view(old(self).simple_vals@[k]),
            forall|k: int|
                0 <= k < final(self).simple_keys@.len() && final(self).simple_keys@[k]@ == simple@
                    ==> match simple_view(#[trigger] final(self).simple_vals@[k]) {
                    SimpleModel::Unique(u) => u == internal_name@ && (!views(
                        old(self).simple_keys@,
                    ).contains(simple@) || exists|j: int|
                        0 <= j < old(self).simple_keys@.len() && old(self).simple_keys@[j]@
                            == simple@ && simple_view(old(self).simple_vals@[j])
                            == SimpleModel::Unique(internal_name@)),
                    SimpleModel::Ambiguous => exists|j: int|
                        0 <= j < old(self).simple_keys@.len() && old(self).simple_keys@[j]@
                            == simple@ && (simple_view(old(self).simple_vals@[j]) matches SimpleModel::Unique(
                            u,
                        ) ==> u != internal_name@),
                },
    {
        match index_of(&self.simple_keys, simple.as_str()) {
            Some(i) => {
                let same = match &self.simple_vals[i] {
                    SimpleName::Unique(existing) => str_eq(existing.as_str(), internal_name.as_str()),
                    SimpleName::Ambiguous => false,
                };
                if !same {
                    self.simple_vals.set(i, SimpleName::Ambiguous);
                }
                proof {
                    lemma_views_index(self.simple_keys@, i as int);
                    assert(views(self.simple_keys@).to_set() =~= views(
                        old(self).simple_keys@,
                    ).to_set().insert(simple@));
                    assert forall|k: int|
                        0 <= k < self.simple_keys@.len() && self.simple_keys@[k]@
                            == simple@ implies k == i by {
                        assert(views(self.simple_keys@)[k] == views(self.simple_keys@)[i as int]);
                    }
                }
            },
            None => {
                let ghost ks = self.simple_keys@;
                self.simple_keys.push(simple);
                self.simple_vals.push(SimpleName::Unique(internal_name.clone()));
                proof {
                    lemma_views_push(ks, self.simple_keys@.last());
                    assert(views(self.simple_keys@) == views(ks).push(simple@));
                    assert forall|k: int|
                        0 <= k < self.simple_keys@.len() && self.simple_keys@[k]@
                            == simple@ implies k == ks.len() by {
                        if k < ks.len() {
                            assert(views(ks)[k] == simple@);
                        }
                    }
                }
            },
        }
    }
}

/// The classes of a catalog after inserting `name`.
pub open spec fn after_insert(classes: Set<Seq<char>>, name: Seq<char>) -> Set<Seq<char>> {
    match normalize(name) {
        Some(n) => classes.insert(n),
        None => classes,
    }
}

/// Inserting the same name twice gives what inserting it once gives.
pub proof fn law_insert_twice(a: ClassCatalog, b: ClassCatalog, c: ClassCatalog, name: Seq<char>)
    requires
        b.class_set() == after_insert(a.class_set(), name),
        c.class_set() == after_insert(b.class_set(), name),
    ensures
        c.class_set() == b.class_set(),
{
    match normalize(name) {
        Some(n) => {
            assert(b.class_set().insert(n) =~= b.class_set());
        },
        None => {},
    }
}

/// After an insert, the catalog holds the inserted class and every class it
/// held before, and nothing else.
pub proof fn law_insert_contains(a: ClassCatalog, b: ClassCatalog, name: Seq<char>, d: Seq<char>)
    requires
        b.class_set() == after_insert(a.class_set(), name),
    ensures
        normalize(name) matches Some(n) ==> b.class_set().contains(n),
        b.class_set().contains(d) <==> (a.class_set().contains(d) || normalize(name) == Some(d)),
{
}

/// After inserting a class with a package, the catalog knows that package.
pub proof fn law_insert_package(a: ClassCatalog, b: ClassCatalog, name: Seq<char>)
    requires
        b.class_set() == after_insert(a.class_set(), name),
        normalize(name) matches Some(n) && has_package(n),
    ensures
        exists|c: Seq<char>|
            #![trigger b.class_set().contains(c)]
            b.class_set().contains(c) && has_package(c) && package_name_of(c) == package_name_of(normalize(name)->0),
{
    let n = normalize(name)->0;
    assert(b.class_set().contains(n));
}

/// A simple name names one class until a second class with that simple name is
/// inserted; from then on it names none.
pub proof fn law_insert_simple_name(a: ClassCatalog, b: ClassCatalog, name: Seq<char>, s: Seq<char>, c: Seq<char>)
    requires
        b.class_set() == after_insert(a.class_set(), name),
        a.only_class_named(c, s),
        normalize(name) matches Some(n) && simple_name(n) == s,
    ensures
        normalize(name) == Some(c) ==> b.only_class_named(c, s),
        normalize(name) != Some(c) ==> forall|d: Seq<char>| !b.only_class_named(d, s),
{
    let n = normalize(name)->0;
    if n != c {
        assert forall|d: Seq<char>| !b.only_class_named(d, s) by {
            if b.only_class_named(d, s) {
                assert(b.class_set().contains(n));
                assert(b.class_set().contains(c));
            }
        }
    }
}

} // verus!
