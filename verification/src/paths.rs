//! Module paths, and the keys under which the symbol tables hold the
//! declarations of a module.
use crate::table::Key;
use crate::text::{cat3, join, join_text, same_text, Chars, Dup};
use vstd::prelude::*;
use vstd::string::*;

verus! {

/// The dotted path of a module, one segment per element. The entry module
/// has no segments.
#[derive(Debug)]
pub struct ModulePath(pub Vec<String>);

impl View for ModulePath {
    type V = Seq<Chars>;

    open spec fn view(&self) -> Seq<Chars> {
        self.0.deep_view()
    }
}

impl DeepView for ModulePath {
    type V = Seq<Chars>;

    open spec fn deep_view(&self) -> Seq<Chars> {
        self.0.deep_view()
    }
}

impl Dup for ModulePath {
    fn dup(&self) -> (r: Self) {
        ModulePath(self.0.dup())
    }
}

impl Key for ModulePath {
    fn same(&self, other: &Self) -> (r: bool) {
        if self.0.len() != other.0.len() {
            assert(self.deep_view().len() != other.deep_view().len());
            return false;
        }
        let mut i: usize = 0;
        while i < self.0.len()
            invariant
                i <= self.0.len(),
                self.0.len() == other.0.len(),
                forall|j: int| 0 <= j < i ==> self.deep_view()[j] == other.deep_view()[j],
            decreases self.0.len() - i,
        {
            if self.0[i] != other.0[i] {
                assert(self.deep_view()[i as int] != other.deep_view()[i as int]);
                return false;
            }
            i += 1;
        }
        assert(self.deep_view() =~= other.deep_view());
        true
    }
}

/// The path of the entry module.
pub open spec fn entry_path() -> Seq<Chars> {
    Seq::empty()
}

/// The path that owns the built-in declarations.
pub open spec fn builtin_path() -> Seq<Chars> {
    seq!["<builtin>"@]
}

pub open spec fn is_builtin_path(p: Seq<Chars>) -> bool {
    p == builtin_path()
}

/// The path as it reads in a message.
pub open spec fn path_text(p: Seq<Chars>) -> Chars {
    if p.len() == 0 {
        "<entry>"@
    } else {
        join(p, "."@)
    }
}

/// The table key of a declaration: the bare name in the entry module and for
/// builtins, and the name behind the dotted path and `::` in any other.
pub open spec fn qualified(p: Seq<Chars>, name: Chars) -> Chars {
    if p.len() == 0 || is_builtin_path(p) {
        name
    } else {
        join(p, "."@) + "::"@ + name
    }
}

/// Whether a `::` starts at `i`.
pub open spec fn separator_at(s: Chars, i: int) -> bool {
    0 <= i && i + 1 < s.len() && s[i] == ':' && s[i + 1] == ':'
}

/// Where the name starts behind the last `::` that starts before `i`.
pub open spec fn name_start(s: Chars, i: int) -> int
    decreases i,
{
    if i <= 0 {
        0
    } else if separator_at(s, i - 1) {
        i + 1
    } else {
        name_start(s, i - 1)
    }
}

/// The name without the module in front of it.
pub open spec fn bare(s: Chars) -> Chars {
    s.skip(name_start(s, s.len() as int))
}

impl ModulePath {
    pub fn entry() -> (r: Self)
        ensures
            r@ == entry_path(),
    {
        let r = ModulePath(Vec::new());
        assert(r@ =~= entry_path());
        r
    }

    pub fn builtin() -> (r: Self)
        ensures
            r@ == builtin_path(),
    {
        let mut v: Vec<String> = Vec::new();
        v.push("<builtin>".to_owned());
        let r = ModulePath(v);
        assert(r@ =~= builtin_path());
        r
    }

    pub fn is_builtin(&self) -> (r: bool)
        ensures
            r == is_builtin_path(self@),
    {
        let r = self.0.len() == 1 && same_text(&self.0[0], "<builtin>");
        assert(r ==> self@ =~= builtin_path());
        assert(builtin_path().len() == 1 && builtin_path()[0] == "<builtin>"@);
        assert(self@.len() == self.0.len());
        r
    }

    /// The path as it reads in a message.
    pub fn text(&self) -> (r: String)
        ensures
            r@ == path_text(self@),
    {
        if self.0.len() == 0 {
            "<entry>".to_owned()
        } else {
            join_text(&self.0, ".")
        }
    }
}

pub fn module_qualify(path: &ModulePath, name: &str) -> (r: String)
    ensures
        r@ == qualified(path@, name@),
{
    if path.0.len() == 0 || path.is_builtin() {
        name.to_owned()
    } else {
        cat3(&join_text(&path.0, "."), "::", name)
    }
}

pub fn bare_name(s: &str) -> (r: String)
    ensures
        r@ == bare(s@),
{
    let n: usize = s.unicode_len();
    let mut i: usize = n;
    while i > 0
        invariant
            i <= n,
            n == s@.len(),
            name_start(s@, n as int) == name_start(s@, i as int),
        decreases i,
    {
        if i < n && s.get_char(i - 1) == ':' && s.get_char(i) == ':' {
            let r = s.substring_char(i + 1, n);
            assert(r@ =~= bare(s@));
            return r.to_owned();
        }
        i -= 1;
    }
    assert(bare(s@) =~= s@);
    s.to_owned()
}

} // verus!
