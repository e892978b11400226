use vstd::prelude::*;
use crate::execution::{strings, Execution, ExecutionDAG, File};
use crate::language::{
    compilation_args_of, detect_language, executable_name_of, file_name_of, language_of,
    runtime_args_of, runtime_command_of, Language,
};

verus! {

/// A source file that can be executed, after a compilation step where its
/// language needs one.
pub struct SourceFile {
    /// Path to the source file.
    pub path: String,
    /// Language of the source file.
    pub language: Language,
    /// The program that runs it, once prepared: the compiled binary or the
    /// source itself.
    pub executable: Option<File>,
}

/// The compilation of the source at `p` in language `l`, reading `src` and
/// producing `exe`.
pub open spec fn is_compilation(c: Execution, l: Language, p: Seq<char>, src: File, exe: File) -> bool {
    &&& c.description@ == seq!['C', 'o', 'm', 'p', 'i', 'l', 'a', 't', 'i', 'o', 'n', ' ', 'o', 'f', ' ']
        + p
    &&& c.command@ == (if l == Language::Cpp {
        seq!['g', '+', '+']
    } else {
        seq!['g', 'c', 'c']
    })
    &&& strings(c.args@) == compilation_args_of(l, p)
    &&& c.inputs@.len() == 1
    &&& c.inputs@[0].0 == src
    &&& c.inputs@[0].1@ == file_name_of(p)
    &&& !c.inputs@[0].2
    &&& c.outputs@.len() == 1
    &&& c.outputs@[0].0@ == executable_name_of(l, p)
    &&& c.outputs@[0].1 == exe
}

/// How preparing a source changes it and the graph: nothing when it was
/// prepared already; else the source is provided as a new file and, where
/// the language is compiled, a compilation producing a second new file is
/// added, and the source's executable is set.
pub open spec fn prepared(s0: SourceFile, d0: ExecutionDAG, s1: SourceFile, d1: ExecutionDAG) -> bool {
    &&& s1.path == s0.path
    &&& s1.language == s0.language
    &&& if s0.executable is Some {
        s1.executable == s0.executable && d1.next_file == d0.next_file && d1.provided_files
            == d0.provided_files && d1.executions == d0.executions
    } else {
        let src = File { id: d0.next_file };
        &&& d1.provided_files@.len() == d0.provided_files@.len() + 1
        &&& d1.provided_files@.drop_last() == d0.provided_files@
        &&& d1.provided_files@.last().0 == src
        &&& d1.provided_files@.last().1@ == s0.path@
        &&& if s0.language == Language::Python {
            &&& d1.next_file == d0.next_file + 1
            &&& d1.executions == d0.executions
            &&& s1.executable == Some(src)
        } else {
            let exe = File { id: (d0.next_file + 1) as u64 };
            &&& d1.next_file == d0.next_file + 2
            &&& d1.executions@.len() == d0.executions@.len() + 1
            &&& d1.executions@.drop_last() == d0.executions@
            &&& is_compilation(d1.executions@.last(), s0.language, s0.path@, src, exe)
            &&& s1.executable == Some(exe)
        }
    }
}

impl SourceFile {
    /// A source file at `path`, or `None` when its language is unknown.
    pub fn new(path: &String) -> (r: Option<SourceFile>)
        ensures
            r is Some <==> language_of(path@) is Some,
            r matches Some(s) ==> s.path@ == path@ && Some(s.language) == language_of(path@)
                && s.executable is None,
    {
        match detect_language(path.as_str()) {
            Some(language) => Some(SourceFile { path: path.clone(), language, executable: None }),
            None => None,
        }
    }

    /// The execution that runs this source with `args`, with its program as
    /// input. Prepares the source first, which may add its compilation to
    /// `dag`; the returned execution itself is not added.
    pub fn execute(&mut self, dag: &mut ExecutionDAG, description: &str, args: Vec<String>) -> (r:
        Execution)
        requires
            old(dag).next_file <= u64::MAX - 2,
        ensures
            prepared(*old(self), *old(dag), *final(self), *final(dag)),
            final(self).executable is Some,
            r.description@ == description@,
            r.command@ == runtime_command_of(old(self).language, old(self).path@),
            strings(r.args@) == runtime_args_of(old(self).language, old(self).path@, strings(args@)),
            r.inputs@.len() == 1,
            Some(r.inputs@[0].0) == final(self).executable,
            r.inputs@[0].1@ == executable_name_of(old(self).language, old(self).path@),
            r.inputs@[0].2,
            r.outputs@.len() == 0,
    {
        self.prepare(dag);
        let exe = match self.executable {
            Some(f) => f,
            None => File { id: 0 },
        };
        let path = self.path.as_str();
        let mut exec = Execution::new(description.to_string(), self.language.runtime_command(path));
        exec.args = self.language.runtime_args(path, args);
        exec.input(exe, self.language.executable_name(path), true);
        exec
    }

    /// Sets the executable of the source, adding its compilation to `dag`
    /// where the language needs one.
    fn prepare(&mut self, dag: &mut ExecutionDAG)
        requires
            old(dag).next_file <= u64::MAX - 2,
        ensures
            prepared(*old(self), *old(dag), *final(self), *final(dag)),
            final(self).executable is Some,
    {
        if self.executable.is_some() {
            return;
        }
        let path = self.path.as_str();
        if self.language.need_compilation() {
            proof {
                reveal_strlit("Compilation of ");
                assert("Compilation of "@ =~= seq![
                    'C', 'o', 'm', 'p', 'i', 'l', 'a', 't', 'i', 'o', 'n', ' ', 'o', 'f', ' ',
                ]);
            }
            let mut description = "Compilation of ".to_string();
            description.append(path);
            let mut comp = Execution::new(description, self.language.compilation_command());
            comp.args = self.language.compilation_args(path);
            let source = dag.new_file();
            comp.input(source, crate::language::file_name(path), false);
            let exe = comp.output(dag, self.language.executable_name(path));
            dag.provide_file(source, self.path.clone());
            dag.add_execution(comp);
            self.executable = Some(exe);
            assert(dag.provided_files@.drop_last() =~= old(dag).provided_files@);
            assert(dag.executions@.drop_last() =~= old(dag).executions@);
        } else {
            let source = dag.new_file();
            dag.provide_file(source, self.path.clone());
            self.executable = Some(source);
            assert(dag.provided_files@.drop_last() =~= old(dag).provided_files@);
        }
    }
}

} // verus!
