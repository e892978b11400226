use vstd::prelude::*;

verus! {

/// A file of the execution graph, known by its id.
#[derive(Clone, Copy, Debug, PartialEq, Eq, Structural)]
pub struct File {
    pub id: u64,
}

/// A command to run: its description, program and arguments, the files it
/// reads (with their name in the sandbox and whether they are executable)
/// and the files it produces (by sandbox name).
pub struct Execution {
    pub description: String,
    pub command: String,
    pub args: Vec<String>,
    pub inputs: Vec<(File, String, bool)>,
    pub outputs: Vec<(String, File)>,
}

/// The graph of executions, with the local files provided to it.
pub struct ExecutionDAG {
    pub next_file: u64,
    pub provided_files: Vec<(File, String)>,
    pub executions: Vec<Execution>,
}

/// The view of a list of strings.
pub open spec fn strings(v: Seq<String>) -> Seq<Seq<char>> {
    v.map_values(|s: String| s@)
}

impl Execution {
    /// An execution of `command` with no arguments, inputs or outputs.
    pub fn new(description: String, command: String) -> (r: Execution)
        ensures
            r.description@ == description@,
            r.command@ == command@,
            r.args@.len() == 0,
            r.inputs@.len() == 0,
            r.outputs@.len() == 0,
    {
        Execution { description, command, args: Vec::new(), inputs: Vec::new(), outputs: Vec::new() }
    }

    /// Adds `file` as an input, placed at `path` in the sandbox.
    pub fn input(&mut self, file: File, path: String, executable: bool)
        ensures
            final(self).inputs@ == old(self).inputs@.push((file, path, executable)),
            final(self).description == old(self).description,
            final(self).command == old(self).command,
            final(self).args == old(self).args,
            final(self).outputs == old(self).outputs,
    {
        self.inputs.push((file, path, executable));
    }

    /// Declares that the execution produces `path`, as a new file of `dag`.
    pub fn output(&mut self, dag: &mut ExecutionDAG, path: String) -> (r: File)
        requires
            old(dag).next_file < u64::MAX,
        ensures
            r == (File { id: old(dag).next_file }),
            final(dag).next_file == old(dag).next_file + 1,
            final(dag).provided_files == old(dag).provided_files,
            final(dag).executions == old(dag).executions,
            final(self).outputs@ == old(self).outputs@.push((path, r)),
            final(self).description == old(self).description,
            final(self).command == old(self).command,
            final(self).args == old(self).args,
            final(self).inputs == old(self).inputs,
    {
        let f = dag.new_file();
        self.outputs.push((path, f));
        f
    }
}

impl ExecutionDAG {
    /// An empty graph.
    pub fn new() -> (r: ExecutionDAG)
        ensures
            r.next_file == 0,
            r.provided_files@.len() == 0,
            r.executions@.len() == 0,
    {
        ExecutionDAG { next_file: 0, provided_files: Vec::new(), executions: Vec::new() }
    }

    /// A fresh file of the graph.
    pub fn new_file(&mut self) -> (r: File)
        requires
            old(self).next_file < u64::MAX,
        ensures
            r == (File { id: old(self).next_file }),
            final(self).next_file == old(self).next_file + 1,
            final(self).provided_files == old(self).provided_files,
            final(self).executions == old(self).executions,
    {
        let f = File { id: self.next_file };
        self.next_file = self.next_file + 1;
        f
    }

    /// Binds `file` to the local file at `path`.
    pub fn provide_file(&mut self, file: File, path: String)
        ensures
            final(self).provided_files@ == old(self).provided_files@.push((file, path)),
            final(self).next_file == old(self).next_file,
            final(self).executions == old(self).executions,
    {
        self.provided_files.push((file, path));
    }

    /// Adds an execution to the graph.
    pub fn add_execution(&mut self, exec: Execution)
        ensures
            final(self).executions@ == old(self).executions@.push(exec),
            final(self).next_file == old(self).next_file,
            final(self).provided_files == old(self).provided_files,
    {
        self.executions.push(exec);
    }
}

} // verus!
