//! The input normalizer: the eight surface shapes an input declaration
//! can take, and their collapse into one canonical tagged representation.

use vstd::prelude::*;

verus! {

/// A named input-group reference in structured form. A present `projects`
/// field takes priority over `dependencies` when normalizing.
pub struct InputsInput {
    pub input: String,
    pub dependencies: Option<bool>,
    pub projects: Option<ProjectList>,
}

/// One project name or several: the two shapes a `projects` field
/// accepts.
pub enum ProjectList {
    Single(String),
    Many(Vec<String>),
}

/// A named file-set reference.
pub struct FileSetInput {
    pub fileset: String,
}

/// A shell-derived input.
pub struct RuntimeInput {
    pub runtime: String,
}

/// A named environment variable.
pub struct EnvironmentInput {
    pub env: String,
}

/// A list of external package names.
pub struct ExternalDependenciesInput {
    pub external_dependencies: Vec<String>,
}

/// The marker name and transitive flag consumed by the dependency-output
/// resolver.
pub struct DepsOutputsInput {
    pub dependent_tasks_output_files: String,
    pub transitive: Option<bool>,
}

/// A working-directory marker.
pub struct WorkingDirectoryInput {
    pub working_directory: String,
}

/// A boolean or a list of target names: the two shapes a
/// `dependent_tasks` field accepts. Both boolean values mean "all
/// declared dependency targets".
pub enum DependentTasksFilter {
    Flag(bool),
    List(Vec<String>),
}

/// A dependent-task-hash filter.
pub struct DependentTasksInput {
    pub dependent_tasks: DependentTasksFilter,
}

/// One raw input declaration, in any of the eight accepted surface
/// shapes; malformed declarations are rejected upstream and never reach
/// this type.
pub enum InputDeclaration {
    Inputs(InputsInput),
    String(String),
    FileSet(FileSetInput),
    Runtime(RuntimeInput),
    Environment(EnvironmentInput),
    ExternalDependencies(ExternalDependenciesInput),
    DepsOutputs(DepsOutputsInput),
    WorkingDirectory(WorkingDirectoryInput),
    DependentTasks(DependentTasksInput),
}

/// The canonical normalized representation of one input declaration:
/// exactly one variant is active, and every resolution strategy consumes
/// this shape.
#[derive(Debug, PartialEq, Eq)]
pub enum Input {
    Inputs { input: String, dependencies: bool },
    String(String),
    FileSet(String),
    Runtime(String),
    Environment(String),
    ExternalDependency(Vec<String>),
    DepsOutputs { dependent_tasks_output_files: String, transitive: bool },
    Projects { projects: Vec<String>, input: String },
    WorkingDirectory(String),
    DependentTasks { targets: Vec<String> },
}

/// Mathematical image of an `InputsInput`.
pub ghost struct InputsInputView {
    pub input: Seq<char>,
    pub dependencies: Option<bool>,
    pub projects: Option<ProjectListView>,
}

/// Mathematical image of a `ProjectList`.
pub ghost enum ProjectListView {
    Single(Seq<char>),
    Many(Seq<Seq<char>>),
}

impl View for ProjectList {
    type V = ProjectListView;

    open spec fn view(&self) -> ProjectListView {
        match self {
            ProjectList::Single(s) => ProjectListView::Single(s@),
            ProjectList::Many(l) => ProjectListView::Many(l.deep_view()),
        }
    }
}

impl View for InputsInput {
    type V = InputsInputView;

    open spec fn view(&self) -> InputsInputView {
        InputsInputView {
            input: self.input@,
            dependencies: self.dependencies,
            projects: match self.projects {
                Some(p) => Some(p@),
                None => None,
            },
        }
    }
}

/// Mathematical image of a `DependentTasksFilter`.
pub ghost enum DependentTasksFilterView {
    Flag(bool),
    List(Seq<Seq<char>>),
}

impl View for DependentTasksFilter {
    type V = DependentTasksFilterView;

    open spec fn view(&self) -> DependentTasksFilterView {
        match self {
            DependentTasksFilter::Flag(b) => DependentTasksFilterView::Flag(*b),
            DependentTasksFilter::List(l) => DependentTasksFilterView::List(l.deep_view()),
        }
    }
}

/// Mathematical image of an `InputDeclaration`.
pub ghost enum InputDeclarationView {
    Inputs(InputsInputView),
    String(Seq<char>),
    FileSet(Seq<char>),
    Runtime(Seq<char>),
    Environment(Seq<char>),
    ExternalDependencies(Seq<Seq<char>>),
    DepsOutputs { dependent_tasks_output_files: Seq<char>, transitive: Option<bool> },
    WorkingDirectory(Seq<char>),
    DependentTasks(DependentTasksFilterView),
}

impl View for InputDeclaration {
    type V = InputDeclarationView;

    open spec fn view(&self) -> InputDeclarationView {
        match self {
            InputDeclaration::Inputs(i) => InputDeclarationView::Inputs(i@),
            InputDeclaration::String(s) => InputDeclarationView::String(s@),
            InputDeclaration::FileSet(f) => InputDeclarationView::FileSet(f.fileset@),
            InputDeclaration::Runtime(r) => InputDeclarationView::Runtime(r.runtime@),
            InputDeclaration::Environment(e) => InputDeclarationView::Environment(e.env@),
            InputDeclaration::ExternalDependencies(x) => InputDeclarationView::ExternalDependencies(
                x.external_dependencies.deep_view(),
            ),
            InputDeclaration::DepsOutputs(d) => InputDeclarationView::DepsOutputs {
                dependent_tasks_output_files: d.dependent_tasks_output_files@,
                transitive: d.transitive,
            },
            InputDeclaration::WorkingDirectory(w) => InputDeclarationView::WorkingDirectory(
                w.working_directory@,
            ),
            InputDeclaration::DependentTasks(t) => InputDeclarationView::DependentTasks(
                t.dependent_tasks@,
            ),
        }
    }
}

/// Mathematical image of an `Input`.
pub ghost enum InputView {
    Inputs { input: Seq<char>, dependencies: bool },
    String(Seq<char>),
    FileSet(Seq<char>),
    Runtime(Seq<char>),
    Environment(Seq<char>),
    ExternalDependency(Seq<Seq<char>>),
    DepsOutputs { dependent_tasks_output_files: Seq<char>, transitive: bool },
    Projects { projects: Seq<Seq<char>>, input: Seq<char> },
    WorkingDirectory(Seq<char>),
    DependentTasks { targets: Seq<Seq<char>> },
}

impl View for Input {
    type V = InputView;

    open spec fn view(&self) -> InputView {
        match self {
            Input::Inputs { input, dependencies } => InputView::Inputs {
                input: input@,
                dependencies: *dependencies,
            },
            Input::String(s) => InputView::String(s@),
            Input::FileSet(f) => InputView::FileSet(f@),
            Input::Runtime(r) => InputView::Runtime(r@),
            Input::Environment(e) => InputView::Environment(e@),
            Input::ExternalDependency(x) => InputView::ExternalDependency(x.deep_view()),
            Input::DepsOutputs { dependent_tasks_output_files, transitive } =>
                InputView::DepsOutputs {
                dependent_tasks_output_files: dependent_tasks_output_files@,
                transitive: *transitive,
            },
            Input::Projects { projects, input } => InputView::Projects {
                projects: projects.deep_view(),
                input: input@,
            },
            Input::WorkingDirectory(w) => InputView::WorkingDirectory(w@),
            Input::DependentTasks { targets } => InputView::DependentTasks {
                targets: targets.deep_view(),
            },
        }
    }
}

/// The project names a `projects` field selects: a single name reads as a
/// one-element list.
pub open spec fn project_names(p: ProjectListView) -> Seq<Seq<char>> {
    match p {
        ProjectListView::Single(s) => seq![s],
        ProjectListView::Many(l) => l,
    }
}

/// What normalization means, shape by shape: a present `projects` field
/// wins over `dependencies`; an absent `dependencies` or `transitive`
/// flag defaults to `false`; a bare string starting with `^` is sugar for
/// the named input group sourced transitively from dependencies; both
/// boolean `dependent_tasks` values collapse to the empty target list
/// ("all declared dependency targets"); every other shape maps
/// one-to-one.
pub open spec fn normalize_spec(d: InputDeclarationView) -> InputView {
    match d {
        InputDeclarationView::Inputs(i) => match i.projects {
            Some(p) => InputView::Projects { projects: project_names(p), input: i.input },
            None => InputView::Inputs {
                input: i.input,
                dependencies: match i.dependencies {
                    Some(b) => b,
                    None => false,
                },
            },
        },
        InputDeclarationView::String(s) => if s.len() > 0 && s[0] == '^' {
            InputView::Inputs { input: s.subrange(1, s.len() as int), dependencies: true }
        } else {
            InputView::String(s)
        },
        InputDeclarationView::FileSet(f) => InputView::FileSet(f),
        InputDeclarationView::Runtime(r) => InputView::Runtime(r),
        InputDeclarationView::Environment(e) => InputView::Environment(e),
        InputDeclarationView::ExternalDependencies(x) => InputView::ExternalDependency(x),
        InputDeclarationView::DepsOutputs { dependent_tasks_output_files, transitive } =>
            InputView::DepsOutputs {
            dependent_tasks_output_files: dependent_tasks_output_files,
            transitive: match transitive {
                Some(b) => b,
                None => false,
            },
        },
        InputDeclarationView::WorkingDirectory(w) => InputView::WorkingDirectory(w),
        InputDeclarationView::DependentTasks(t) => InputView::DependentTasks {
            targets: match t {
                DependentTasksFilterView::Flag(_) => Seq::empty(),
                DependentTasksFilterView::List(l) => l,
            },
        },
    }
}

/// The `^` shorthand: normalizing a bare string that prefixes `rest` with
/// the marker character is the same as normalizing the structured form
/// that names `rest` with `dependencies: true`.
pub proof fn lemma_caret_shorthand(rest: Seq<char>)
    ensures
        normalize_spec(InputDeclarationView::String(seq!['^'] + rest)) == normalize_spec(
            InputDeclarationView::Inputs(
                (InputsInputView { input: rest, dependencies: Some(true), projects: None }),
            ),
        ),
{
    let s = seq!['^'] + rest;
    assert(s[0] == '^');
    assert(s.subrange(1, s.len() as int) =~= rest);
}

/// A present `projects` field takes priority: the declaration normalizes
/// to `Projects` whatever its `dependencies` field holds, so two
/// declarations differing only there normalize alike.
pub proof fn lemma_projects_priority(
    input: Seq<char>,
    projects: ProjectListView,
    d1: Option<bool>,
    d2: Option<bool>,
)
    ensures
        normalize_spec(
            InputDeclarationView::Inputs(
                (InputsInputView { input, dependencies: d1, projects: Some(projects) }),
            ),
        ) == (InputView::Projects { projects: project_names(projects), input }),
        normalize_spec(
            InputDeclarationView::Inputs(
                (InputsInputView { input, dependencies: d1, projects: Some(projects) }),
            ),
        ) == normalize_spec(
            InputDeclarationView::Inputs(
                (InputsInputView { input, dependencies: d2, projects: Some(projects) }),
            ),
        ),
{
}

/// Both boolean `dependent_tasks` values normalize to the empty target
/// list, meaning "all declared dependency targets"; only an explicit list
/// narrows the filter.
pub proof fn lemma_dependent_tasks_flag_collapse(b: bool)
    ensures
        normalize_spec(InputDeclarationView::DependentTasks(DependentTasksFilterView::Flag(b)))
            == (InputView::DependentTasks { targets: Seq::empty() }),
{
}

impl Input {
    /// Collapse one raw declaration into its canonical variant, exactly as
    /// [`normalize_spec`] says. Total: every accepted shape normalizes.
    pub fn normalize(declaration: InputDeclaration) -> (r: Input)
        ensures
            r@ == normalize_spec(declaration@),
    {
        match declaration {
            InputDeclaration::Inputs(i) => match i.projects {
                Some(p) => {
                    let names: Vec<String> = match p {
                        ProjectList::Single(s) => {
                            let ghost sv = s@;
                            let mut v: Vec<String> = Vec::new();
                            v.push(s);
                            proof {
                                assert(v.deep_view() =~= seq![sv]);
                            }
                            v
                        },
                        ProjectList::Many(l) => l,
                    };
                    Input::Projects { projects: names, input: i.input }
                },
                None => Input::Inputs {
                    input: i.input,
                    dependencies: match i.dependencies {
                        Some(b) => b,
                        None => false,
                    },
                },
            },
            InputDeclaration::String(s) => {
                let len = s.as_str().unicode_len();
                if len > 0 && s.as_str().get_char(0) == '^' {
                    let rest = s.as_str().substring_char(1, len);
                    Input::Inputs { input: rest.to_owned(), dependencies: true }
                } else {
                    Input::String(s)
                }
            },
            InputDeclaration::FileSet(f) => Input::FileSet(f.fileset),
            InputDeclaration::Runtime(r) => Input::Runtime(r.runtime),
            InputDeclaration::Environment(e) => Input::Environment(e.env),
            InputDeclaration::ExternalDependencies(x) => Input::ExternalDependency(
                x.external_dependencies,
            ),
            InputDeclaration::DepsOutputs(d) => Input::DepsOutputs {
                dependent_tasks_output_files: d.dependent_tasks_output_files,
                transitive: match d.transitive {
                    Some(b) => b,
                    None => false,
                },
            },
            InputDeclaration::WorkingDirectory(w) => Input::WorkingDirectory(w.working_directory),
            InputDeclaration::DependentTasks(t) => Input::DependentTasks {
                targets: match t.dependent_tasks {
                    DependentTasksFilter::Flag(_) => {
                        let v: Vec<String> = Vec::new();
                        proof {
                            assert(v.deep_view() =~= Seq::<Seq<char>>::empty());
                        }
                        v
                    },
                    DependentTasksFilter::List(l) => l,
                },
            },
        }
    }
}

} // verus!
