//! The closed set of built-in operations and the lookup from keyword to
//! built-in.

use vstd::prelude::*;
use vstd::string::*;

verus! {

/// An operation that the interpreter carries out itself.
#[derive(Clone, Copy, Debug, PartialEq, Eq, Structural)]
pub enum Builtin {
    Echo,
    Exit,
    Cat,
    Pwd,
    Rm,
    Ls,
    Mkdir,
    Clear,
    Help,
}

/// The keyword that names `b`.
pub open spec fn keyword_of(b: Builtin) -> Seq<char> {
    match b {
        Builtin::Echo => seq!['e', 'c', 'h', 'o'],
        Builtin::Exit => seq!['e', 'x', 'i', 't'],
        Builtin::Cat => seq!['c', 'a', 't'],
        Builtin::Pwd => seq!['p', 'w', 'd'],
        Builtin::Rm => seq!['r', 'm'],
        Builtin::Ls => seq!['l', 's'],
        Builtin::Mkdir => seq!['m', 'k', 'd', 'i', 'r'],
        Builtin::Clear => seq!['c', 'l', 'e', 'a', 'r'],
        Builtin::Help => seq!['h', 'e', 'l', 'p'],
    }
}

/// The built-in that keyword `k` names, if any: an exact, case-sensitive
/// match against the nine keywords.
pub open spec fn builtin_named(k: Seq<char>) -> Option<Builtin> {
    if k == keyword_of(Builtin::Echo) {
        Some(Builtin::Echo)
    } else if k == keyword_of(Builtin::Exit) {
        Some(Builtin::Exit)
    } else if k == keyword_of(Builtin::Cat) {
        Some(Builtin::Cat)
    } else if k == keyword_of(Builtin::Pwd) {
        Some(Builtin::Pwd)
    } else if k == keyword_of(Builtin::Rm) {
        Some(Builtin::Rm)
    } else if k == keyword_of(Builtin::Ls) {
        Some(Builtin::Ls)
    } else if k == keyword_of(Builtin::Mkdir) {
        Some(Builtin::Mkdir)
    } else if k == keyword_of(Builtin::Clear) {
        Some(Builtin::Clear)
    } else if k == keyword_of(Builtin::Help) {
        Some(Builtin::Help)
    } else {
        None
    }
}

/// Whether `a` and `b` hold the same characters.
pub fn same_text(a: &str, b: &str) -> (r: bool)
    ensures
        r == (a@ == b@),
{
    let n = a.unicode_len();
    if n != b.unicode_len() {
        return false;
    }
    let mut i: usize = 0;
    while i < n
        invariant
            n == a@.len() == b@.len(),
            i <= n,
            forall|j: int| 0 <= j < i ==> a@[j] == b@[j],
        decreases n - i,
    {
        if a.get_char(i) != b.get_char(i) {
            return false;
        }
        i = i + 1;
    }
    assert(a@ =~= b@);
    true
}

impl Builtin {
    /// The keyword that names this built-in.
    pub fn keyword(&self) -> (r: &'static str)
        ensures
            r@ == keyword_of(*self),
    {
        match self {
            Builtin::Echo => {
                proof { reveal_strlit("echo"); }
                "echo"
            },
            Builtin::Exit => {
                proof { reveal_strlit("exit"); }
                "exit"
            },
            Builtin::Cat => {
                proof { reveal_strlit("cat"); }
                "cat"
            },
            Builtin::Pwd => {
                proof { reveal_strlit("pwd"); }
                "pwd"
            },
            Builtin::Rm => {
                proof { reveal_strlit("rm"); }
                "rm"
            },
            Builtin::Ls => {
                proof { reveal_strlit("ls"); }
                "ls"
            },
            Builtin::Mkdir => {
                proof { reveal_strlit("mkdir"); }
                "mkdir"
            },
            Builtin::Clear => {
                proof { reveal_strlit("clear"); }
                "clear"
            },
            Builtin::Help => {
                proof { reveal_strlit("help"); }
                "help"
            },
        }
    }

    /// Looks `keyword` up among the built-ins' keywords: exact and
    /// case-sensitive, with no abbreviation.
    pub fn resolve(keyword: &str) -> (r: Option<Builtin>)
        ensures
            r == builtin_named(keyword@),
    {
        let table: [Builtin; 9] = [
            Builtin::Echo,
            Builtin::Exit,
            Builtin::Cat,
            Builtin::Pwd,
            Builtin::Rm,
            Builtin::Ls,
            Builtin::Mkdir,
            Builtin::Clear,
            Builtin::Help,
        ];
        let mut i: usize = 0;
        while i < 9
            invariant
                i <= 9,
                table@ == seq![
                    Builtin::Echo,
                    Builtin::Exit,
                    Builtin::Cat,
                    Builtin::Pwd,
                    Builtin::Rm,
                    Builtin::Ls,
                    Builtin::Mkdir,
                    Builtin::Clear,
                    Builtin::Help,
                ],
                forall|j: int| 0 <= j < i ==> keyword@ != keyword_of(#[trigger] table@[j]),
            decreases 9 - i,
        {
            let b = table[i];
            if same_text(keyword, b.keyword()) {
                return Some(b);
            }
            i = i + 1;
        }
        None
    }
}

impl std::str::FromStr for Builtin {
    type Err = ();

    /// Resolves `s` as `resolve` does: the built-in it names, or `Err(())`
    /// where it names none.
    fn from_str(s: &str) -> (r: Result<Builtin, ()>)
        ensures
            r == (match builtin_named(s@) {
                Some(b) => Ok::<Builtin, ()>(b),
                None => Err::<Builtin, ()>(()),
            }),
    {
        match Builtin::resolve(s) {
            Some(b) => Ok(b),
            None => Err(()),
        }
    }
}

/// No two built-ins share a keyword.
pub proof fn lemma_keywords_distinct()
    ensures
        forall|a: Builtin, b: Builtin| keyword_of(a) == keyword_of(b) ==> a == b,
{
    assert forall|a: Builtin, b: Builtin| keyword_of(a) == keyword_of(b) implies a == b by {
        let (ka, kb) = (keyword_of(a), keyword_of(b));
        if a != b {
            assert(ka.len() != kb.len() || ka[0] != kb[0] || ka[1] != kb[1] || ka[2] != kb[2]);
        }
    }
}

/// A keyword names a built-in exactly when it is that built-in's keyword,
/// and distinct built-ins have distinct keywords.
pub proof fn lemma_resolve_exact(k: Seq<char>, b: Builtin)
    ensures
        builtin_named(k) == Some(b) <==> k == keyword_of(b),
{
    lemma_keywords_distinct();
}

} // verus!
