use vstd::prelude::*;
use crate::execution::strings;

verus! {

/// The languages whose source files can be run.
///
/// The extensions, compilers, flags and interpreter chosen here are a small
/// built-in table; a host with its own toolchains supplies its own commands
/// around the same execution graph.
#[derive(Clone, Copy, Debug, PartialEq, Eq, Structural)]
pub enum Language {
    Cpp,
    C,
    Python,
}

/// Whether `p` ends with `s`.
pub open spec fn has_suffix(p: Seq<char>, s: Seq<char>) -> bool {
    p.len() >= s.len() && p.subrange(p.len() - s.len(), p.len() as int) == s
}

/// Index where the last component of a path starts: just after its last
/// `/`, or 0.
pub open spec fn name_start(p: Seq<char>) -> int
    decreases p.len(),
{
    if p.len() == 0 {
        0
    } else if p.last() == '/' {
        p.len() as int
    } else {
        name_start(p.drop_last())
    }
}

/// The last component of a path.
pub open spec fn file_name_of(p: Seq<char>) -> Seq<char> {
    p.subrange(name_start(p), p.len() as int)
}

/// The language of a source file, by the extension of its path, as the
/// built-in table knows them.
pub open spec fn language_of(p: Seq<char>) -> Option<Language> {
    if has_suffix(p, seq!['.', 'c', 'p', 'p']) {
        Some(Language::Cpp)
    } else if has_suffix(p, seq!['.', 'c']) {
        Some(Language::C)
    } else if has_suffix(p, seq!['.', 'p', 'y']) {
        Some(Language::Python)
    } else {
        None
    }
}

/// Length of the extension that marks a language.
pub open spec fn extension_len(l: Language) -> int {
    match l {
        Language::Cpp => 4,
        Language::C => 2,
        Language::Python => 3,
    }
}

proof fn lemma_name_start_bounds(p: Seq<char>)
    ensures
        0 <= name_start(p) <= p.len(),
    decreases p.len(),
{
    if p.len() > 0 && p.last() != '/' {
        lemma_name_start_bounds(p.drop_last());
    }
}

fn ends_with(p: &str, s: &str) -> (r: bool)
    ensures
        r == has_suffix(p@, s@),
{
    let n = p.unicode_len();
    let m = s.unicode_len();
    if n < m {
        return false;
    }
    let mut i: usize = 0;
    while i < m
        invariant
            n == p@.len(),
            m == s@.len(),
            m <= n,
            i <= m,
            forall|j: int| 0 <= j < i ==> p@[n - m + j] == s@[j],
        decreases m - i,
    {
        if p.get_char(n - m + i) != s.get_char(i) {
            assert(p@.subrange(n - m, n as int)[i as int] != s@[i as int]);
            return false;
        }
        i = i + 1;
    }
    assert(p@.subrange(n - m, n as int) =~= s@);
    true
}

/// The last component of `path`.
pub fn file_name(path: &str) -> (r: String)
    ensures
        r@ == file_name_of(path@),
{
    let n = path.unicode_len();
    let mut start: usize = 0;
    let mut i: usize = 0;
    while i < n
        invariant
            n == path@.len(),
            i <= n,
            start as int == name_start(path@.subrange(0, i as int)),
        decreases n - i,
    {
        if path.get_char(i) == '/' {
            start = i + 1;
        }
        assert(path@.subrange(0, i + 1).drop_last() =~= path@.subrange(0, i as int));
        i = i + 1;
    }
    assert(path@.subrange(0, n as int) =~= path@);
    proof {
        lemma_name_start_bounds(path@);
    }
    path.substring_char(start, n).to_string()
}

/// The language of the source file at `path`, by its extension.
pub fn detect_language(path: &str) -> (r: Option<Language>)
    ensures
        r == language_of(path@),
{
    proof {
        reveal_strlit(".cpp");
        reveal_strlit(".c");
        reveal_strlit(".py");
        assert(".cpp"@ =~= seq!['.', 'c', 'p', 'p']);
        assert(".c"@ =~= seq!['.', 'c']);
        assert(".py"@ =~= seq!['.', 'p', 'y']);
    }
    if ends_with(path, ".cpp") {
        Some(Language::Cpp)
    } else if ends_with(path, ".c") {
        Some(Language::C)
    } else if ends_with(path, ".py") {
        Some(Language::Python)
    } else {
        None
    }
}

fn literal(s: &str) -> (r: String)
    ensures
        r@ == s@,
{
    s.to_string()
}

/// A file name with the last `k` characters, its extension, dropped.
pub open spec fn stem_of(name: Seq<char>, k: int) -> Seq<char> {
    if name.len() >= k {
        name.subrange(0, name.len() - k)
    } else {
        name
    }
}

/// Name of the program that runs a source: the compiled binary, named after
/// the source without its extension, or the source itself.
pub open spec fn executable_name_of(l: Language, p: Seq<char>) -> Seq<char> {
    if l == Language::Python {
        file_name_of(p)
    } else {
        stem_of(file_name_of(p), extension_len(l))
    }
}

/// The arguments of the compiler in the built-in table, standing in for
/// the host's own: optimise, and write the binary next to the source.
pub open spec fn compilation_args_of(l: Language, p: Seq<char>) -> Seq<Seq<char>> {
    seq![seq!['-', 'O', '2'], seq!['-', 'o'], executable_name_of(l, p), file_name_of(p)]
}

/// The program to start: the built-in table's interpreter, standing in for
/// the host's own, or the binary itself.
pub open spec fn runtime_command_of(l: Language, p: Seq<char>) -> Seq<char> {
    if l == Language::Python {
        seq!['p', 'y', 't', 'h', 'o', 'n', '3']
    } else {
        executable_name_of(l, p)
    }
}

/// The arguments of the program: an interpreter first gets the source.
pub open spec fn runtime_args_of(l: Language, p: Seq<char>, args: Seq<Seq<char>>) -> Seq<Seq<char>> {
    if l == Language::Python {
        seq![file_name_of(p)] + args
    } else {
        args
    }
}

impl Language {
    /// Whether sources of the language are compiled before they run.
    pub fn need_compilation(&self) -> (r: bool)
        ensures
            r == (*self != Language::Python),
    {
        match self {
            Language::Python => false,
            _ => true,
        }
    }

    /// The name of the compiler in the built-in table, standing in for the
    /// host's own.
    pub fn compilation_command(&self) -> (r: String)
        ensures
            *self == Language::Cpp ==> r@ == seq!['g', '+', '+'],
            *self == Language::C ==> r@ == seq!['g', 'c', 'c'],
            *self == Language::Python ==> r@.len() == 0,
    {
        proof {
            reveal_strlit("g++");
            reveal_strlit("gcc");
            reveal_strlit("");
        }
        match self {
            Language::Cpp => literal("g++"),
            Language::C => literal("gcc"),
            Language::Python => literal(""),
        }
    }

    /// Name of the program that runs the source at `path`.
    pub fn executable_name(&self, path: &str) -> (r: String)
        ensures
            r@ == executable_name_of(*self, path@),
    {
        let name = file_name(path);
        let k: usize = match self {
            Language::Cpp => 4,
            Language::C => 2,
            Language::Python => return name,
        };
        let n = name.as_str().unicode_len();
        if n >= k {
            name.as_str().substring_char(0, n - k).to_string()
        } else {
            name
        }
    }

    /// The arguments of the compiler for the source at `path`.
    pub fn compilation_args(&self, path: &str) -> (r: Vec<String>)
        ensures
            strings(r@) == compilation_args_of(*self, path@),
    {
        proof {
            reveal_strlit("-O2");
            reveal_strlit("-o");
            assert("-O2"@ =~= seq!['-', 'O', '2']);
            assert("-o"@ =~= seq!['-', 'o']);
        }
        let r = vec![literal("-O2"), literal("-o"), self.executable_name(path), file_name(path)];
        assert(strings(r@) =~= compilation_args_of(*self, path@));
        r
    }

    /// The program to start for the source at `path`.
    pub fn runtime_command(&self, path: &str) -> (r: String)
        ensures
            r@ == runtime_command_of(*self, path@),
    {
        proof {
            reveal_strlit("python3");
            assert("python3"@ =~= seq!['p', 'y', 't', 'h', 'o', 'n', '3']);
        }
        match self {
            Language::Python => literal("python3"),
            _ => self.executable_name(path),
        }
    }

    /// The arguments of the program for the source at `path`, given the
    /// caller's `args`.
    pub fn runtime_args(&self, path: &str, args: Vec<String>) -> (r: Vec<String>)
        ensures
            strings(r@) == runtime_args_of(*self, path@, strings(args@)),
    {
        match self {
            Language::Python => {
                let mut r: Vec<String> = Vec::new();
                r.push(file_name(path));
                let mut i: usize = 0;
                while i < args.len()
                    invariant
                        i <= args@.len(),
                        strings(r@) == seq![file_name_of(path@)] + strings(args@.subrange(0, i as int)),
                    decreases args.len() - i,
                {
                    let ghost before = r@;
                    r.push(args[i].clone());
                    assert(r@ == before.push(args@[i as int]));
                    assert(args@.subrange(0, i + 1) =~= args@.subrange(0, i as int).push(args@[i as int]));
                    assert(strings(r@) =~= strings(before).push(args@[i as int]@));
                    assert(strings(args@.subrange(0, i + 1)) =~= strings(args@.subrange(0, i as int)).push(
                        args@[i as int]@,
                    ));
                    assert(strings(r@) =~= seq![file_name_of(path@)] + strings(
                        args@.subrange(0, i + 1),
                    ));
                    i = i + 1;
                }
                assert(args@.subrange(0, i as int) =~= args@);
                r
            },
            _ => args,
        }
    }
}

} // verus!
