use task_maker_store::{ExecutionDAG, Language, SourceFile};

#[test]
fn unknown_language_is_none() {
    assert!(SourceFile::new(&"/tmp/notes.txt".to_string()).is_none());
    assert!(SourceFile::new(&"/tmp/cpp".to_string()).is_none());
}

#[test]
fn languages_by_extension() {
    assert_eq!(SourceFile::new(&"a/b.cpp".to_string()).unwrap().language, Language::Cpp);
    assert_eq!(SourceFile::new(&"a/b.c".to_string()).unwrap().language, Language::C);
    assert_eq!(SourceFile::new(&"b.py".to_string()).unwrap().language, Language::Python);
}

#[test]
fn cpp_source_is_compiled_once() {
    let mut dag = ExecutionDAG::new();
    let mut source = SourceFile::new(&"/tmp/tm-test/source.cpp".to_string()).unwrap();
    assert!(source.executable.is_none());
    let exec = source.execute(&mut dag, "Testing exec", vec![]);
    assert_eq!(exec.description, "Testing exec");
    assert_eq!(exec.command, "source");
    assert!(exec.args.is_empty());
    assert_eq!(dag.executions.len(), 1);
    assert_eq!(dag.provided_files.len(), 1);
    assert_eq!(dag.provided_files[0].1, "/tmp/tm-test/source.cpp");
    let comp = &dag.executions[0];
    assert_eq!(comp.description, "Compilation of /tmp/tm-test/source.cpp");
    assert_eq!(comp.command, "g++");
    assert_eq!(comp.args, vec!["-O2", "-o", "source", "source.cpp"]);
    assert_eq!(comp.inputs.len(), 1);
    assert_eq!(comp.inputs[0].1, "source.cpp");
    assert!(!comp.inputs[0].2);
    assert_eq!(comp.inputs[0].0, dag.provided_files[0].0);
    let exe = source.executable.unwrap();
    assert_eq!(comp.outputs[0].1, exe);
    assert_eq!(exec.inputs[0].0, exe);
    assert_eq!(exec.inputs[0].1, "source");
    assert!(exec.inputs[0].2);

    let again = source.execute(&mut dag, "Again", vec!["x".to_string()]);
    assert_eq!(dag.executions.len(), 1);
    assert_eq!(dag.provided_files.len(), 1);
    assert_eq!(again.inputs[0].0, exe);
    assert_eq!(again.args, vec!["x"]);
}

#[test]
fn python_source_runs_through_the_interpreter() {
    let mut dag = ExecutionDAG::new();
    let mut source = SourceFile::new(&"dir/sol.py".to_string()).unwrap();
    let exec = source.execute(&mut dag, "Run", vec!["1".to_string(), "2".to_string()]);
    assert!(dag.executions.is_empty());
    assert_eq!(dag.provided_files.len(), 1);
    assert_eq!(exec.command, "python3");
    assert_eq!(exec.args, vec!["sol.py", "1", "2"]);
    assert_eq!(exec.inputs[0].1, "sol.py");
    assert_eq!(exec.inputs[0].0, dag.provided_files[0].0);
}
