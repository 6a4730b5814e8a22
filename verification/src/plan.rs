//! The tool chains and the projects that a run updates.

use vstd::prelude::*;
use vstd::utf8;

use crate::command;
use crate::command::CommandSpec;
use crate::path;
use crate::path::FilePath;
use crate::text;

verus! {

/// A tool chain and the commands that update it.
#[derive(Debug, Clone)]
pub struct WorkGroup {
    pub name: &'static str,
    pub commands: Vec<CommandSpec>,
}

/// A [`WorkGroup`] in terms of characters.
#[verifier::ext_equal]
pub struct GroupView {
    pub name: Seq<char>,
    pub commands: Seq<Seq<Seq<char>>>,
}

impl View for WorkGroup {
    type V = GroupView;

    open spec fn view(&self) -> GroupView {
        GroupView { name: self.name@, commands: command::command_views(self.commands@) }
    }
}

/// The views of a list of groups.
pub open spec fn group_views(groups: Seq<WorkGroup>) -> Seq<GroupView> {
    groups.map_values(|g: WorkGroup| g@)
}

/// A project, the directory that it is checked out in, and the commands that
/// update it.
#[derive(Debug, Clone)]
pub struct ProjectTask {
    pub name: &'static str,
    pub dir: FilePath,
    pub commands: Vec<CommandSpec>,
}

/// A [`ProjectTask`] in terms of characters and bytes.
#[verifier::ext_equal]
pub struct TaskView {
    pub name: Seq<char>,
    pub dir: Seq<u8>,
    pub commands: Seq<Seq<Seq<char>>>,
}

impl View for ProjectTask {
    type V = TaskView;

    open spec fn view(&self) -> TaskView {
        TaskView {
            name: self.name@,
            dir: self.dir@,
            commands: command::command_views(self.commands@),
        }
    }
}

/// The views of a list of projects.
pub open spec fn task_views(tasks: Seq<ProjectTask>) -> Seq<TaskView> {
    tasks.map_values(|t: ProjectTask| t@)
}

/// The tool chains, in the order in which they are reported.
pub open spec fn tool_table() -> Seq<GroupView> {
    seq![
        GroupView {
            name: "Homebrew"@,
            commands: seq![seq!["brew"@, "update"@], seq!["brew"@, "upgrade"@, "-y"@]],
        },
        GroupView { name: "Rust"@, commands: seq![seq!["rustup"@, "update"@]] },
        GroupView { name: "Node"@, commands: seq![seq!["pnpm"@, "up"@, "-g"@]] },
        GroupView {
            name: "Global skills"@,
            commands: seq![seq!["bunx"@, "skills"@, "update"@, "--global"@]],
        },
        GroupView { name: ".NET tools"@, commands: seq![seq!["dotnet"@, "updatealltools"@]] },
        GroupView { name: "Cargo tools"@, commands: seq![seq!["cargo"@, "install-update"@, "-a"@]] },
        GroupView {
            name: "Go tools"@,
            commands: seq![
                seq!["go"@, "install"@, "github.com/go-delve/delve/cmd/dlv@latest"@],
                seq!["go"@, "install"@, "honnef.co/go/tools/cmd/staticcheck@latest"@],
                seq!["go"@, "install"@, "golang.org/x/perf/cmd/benchstat@latest"@],
            ],
        },
    ]
}

/// The commands that update a project in Rust. A deep run cleans it before it is
/// built.
pub open spec fn rust_commands(deep: bool) -> Seq<Seq<Seq<char>>> {
    if deep {
        seq![seq!["cargo"@, "update"@], seq!["cargo"@, "clean"@], seq!["cargo"@, "build"@]]
    } else {
        seq![seq!["cargo"@, "update"@], seq!["cargo"@, "build"@]]
    }
}

/// The commands that update a .NET project. A deep run cleans it before it is
/// built.
pub open spec fn dotnet_commands(deep: bool) -> Seq<Seq<Seq<char>>> {
    if deep {
        seq![
            seq!["dotnet"@, "outdated"@, "-u"@, "-i"@],
            seq!["dotnet"@, "clean"@],
            seq!["dotnet"@, "build"@],
            seq!["dotnet"@, "build"@, "-c"@, "Release"@],
        ]
    } else {
        seq![
            seq!["dotnet"@, "outdated"@, "-u"@, "-i"@],
            seq!["dotnet"@, "build"@],
            seq!["dotnet"@, "build"@, "-c"@, "Release"@],
        ]
    }
}

/// The projects below `home`, in the order in which they are reported.
pub open spec fn project_table(home: Seq<u8>, deep: bool) -> Seq<TaskView> {
    seq![
        TaskView {
            name: "project: lrs"@,
            dir: path::path_below(home, seq!["Documents"@, "source"@, "rust"@, "lrs"@]),
            commands: rust_commands(deep),
        },
        TaskView {
            name: "project: axes"@,
            dir: path::path_below(home, seq!["Documents"@, "source"@, "rust"@, "axes"@]),
            commands: rust_commands(deep),
        },
        TaskView {
            name: "project: lcsSln"@,
            dir: path::path_below(home, seq!["Documents"@, "source"@, "lcsSln"@]),
            commands: dotnet_commands(deep),
        },
        TaskView {
            name: "project: lpy"@,
            dir: path::path_below(home, seq!["Documents"@, "source"@, "lpy"@]),
            commands: seq![seq!["uv"@, "sync"@, "-U"@]],
        },
        TaskView {
            name: "project: ponytail"@,
            dir: path::path_below(home, seq!["Documents"@, "source"@, "ponytail"@]),
            commands: seq![seq!["git"@, "pull"@]],
        },
    ]
}

/// The tool chains that a run updates.
pub fn tool_groups() -> (groups: Vec<WorkGroup>)
    ensures
        group_views(groups@) == tool_table(),
{
    let groups = vec![
        WorkGroup {
            name: "Homebrew",
            commands: vec![
                CommandSpec { program: "brew", args: &["update"] },
                CommandSpec { program: "brew", args: &["upgrade", "-y"] },
            ],
        },
        WorkGroup {
            name: "Rust",
            commands: vec![CommandSpec { program: "rustup", args: &["update"] }],
        },
        WorkGroup {
            name: "Node",
            commands: vec![CommandSpec { program: "pnpm", args: &["up", "-g"] }],
        },
        WorkGroup {
            name: "Global skills",
            commands: vec![
                CommandSpec { program: "bunx", args: &["skills", "update", "--global"] },
            ],
        },
        WorkGroup {
            name: ".NET tools",
            commands: vec![CommandSpec { program: "dotnet", args: &["updatealltools"] }],
        },
        WorkGroup {
            name: "Cargo tools",
            commands: vec![CommandSpec { program: "cargo", args: &["install-update", "-a"] }],
        },
        WorkGroup {
            name: "Go tools",
            commands: vec![
                CommandSpec {
                    program: "go",
                    args: &["install", "github.com/go-delve/delve/cmd/dlv@latest"],
                },
                CommandSpec {
                    program: "go",
                    args: &["install", "honnef.co/go/tools/cmd/staticcheck@latest"],
                },
                CommandSpec {
                    program: "go",
                    args: &["install", "golang.org/x/perf/cmd/benchstat@latest"],
                },
            ],
        },
    ];
    proof {
        let table = tool_table();
        assert forall|i: int| 0 <= i < 7 implies groups@[i]@ =~= #[trigger] table[i] by {
            let commands = groups@[i].commands@;
            assert forall|j: int| 0 <= j < commands.len() implies commands[j]@ =~= #[trigger] table[i].commands[j] by {}
        }
        assert(group_views(groups@) =~= table);
    }
    groups
}

/// The commands that update a project in Rust.
pub fn rust_project_commands(deep: bool) -> (commands: Vec<CommandSpec>)
    ensures
        command::command_views(commands@) == rust_commands(deep),
{
    let mut commands = vec![CommandSpec { program: "cargo", args: &["update"] }];
    if deep {
        commands.push(CommandSpec { program: "cargo", args: &["clean"] });
    }
    commands.push(CommandSpec { program: "cargo", args: &["build"] });
    proof {
        let table = rust_commands(deep);
        assert forall|j: int| 0 <= j < table.len() implies commands@[j]@ =~= #[trigger] table[j] by {}
        assert(command::command_views(commands@) =~= table);
    }
    commands
}

/// The commands that update a .NET project.
pub fn dotnet_project_commands(deep: bool) -> (commands: Vec<CommandSpec>)
    ensures
        command::command_views(commands@) == dotnet_commands(deep),
{
    let mut commands = vec![CommandSpec { program: "dotnet", args: &["outdated", "-u", "-i"] }];
    if deep {
        commands.push(CommandSpec { program: "dotnet", args: &["clean"] });
    }
    commands.push(CommandSpec { program: "dotnet", args: &["build"] });
    commands.push(CommandSpec { program: "dotnet", args: &["build", "-c", "Release"] });
    proof {
        let table = dotnet_commands(deep);
        assert forall|j: int| 0 <= j < table.len() implies commands@[j]@ =~= #[trigger] table[j] by {}
        assert(command::command_views(commands@) =~= table);
    }
    commands
}

/// The projects below `home` that a run updates.
pub fn project_tasks(home: &FilePath, deep: bool) -> (tasks: Vec<ProjectTask>)
    ensures
        task_views(tasks@) == project_table(home@, deep),
{
    let parts = ["Documents", "source"];
    let source = home.below(&parts);
    let rust = source.join("rust");
    let tasks = vec![
        ProjectTask {
            name: "project: lrs",
            dir: rust.join("lrs"),
            commands: rust_project_commands(deep),
        },
        ProjectTask {
            name: "project: axes",
            dir: rust.join("axes"),
            commands: rust_project_commands(deep),
        },
        ProjectTask {
            name: "project: lcsSln",
            dir: source.join("lcsSln"),
            commands: dotnet_project_commands(deep),
        },
        ProjectTask {
            name: "project: lpy",
            dir: source.join("lpy"),
            commands: vec![CommandSpec { program: "uv", args: &["sync", "-U"] }],
        },
        ProjectTask {
            name: "project: ponytail",
            dir: source.join("ponytail"),
            commands: vec![CommandSpec { program: "git", args: &["pull"] }],
        },
    ];
    proof {
        let table = project_table(home@, deep);
        let below_source = seq!["Documents"@, "source"@];
        assert(text::str_views(parts@) =~= below_source);
        path::lemma_path_push(home@, below_source, "rust"@);
        path::lemma_path_push(home@, below_source, "lcsSln"@);
        path::lemma_path_push(home@, below_source, "lpy"@);
        path::lemma_path_push(home@, below_source, "ponytail"@);
        path::lemma_path_push(home@, below_source.push("rust"@), "lrs"@);
        path::lemma_path_push(home@, below_source.push("rust"@), "axes"@);
        let below_rust = below_source.push("rust"@);
        assert(below_rust.push("lrs"@) =~= seq!["Documents"@, "source"@, "rust"@, "lrs"@]);
        assert(below_rust.push("axes"@) =~= seq!["Documents"@, "source"@, "rust"@, "axes"@]);
        assert(below_source.push("lcsSln"@) =~= seq!["Documents"@, "source"@, "lcsSln"@]);
        assert(below_source.push("lpy"@) =~= seq!["Documents"@, "source"@, "lpy"@]);
        assert(below_source.push("ponytail"@) =~= seq!["Documents"@, "source"@, "ponytail"@]);
        assert(tasks@[0]@ =~= table[0]);
        assert(tasks@[1]@ =~= table[1]);
        assert(tasks@[2]@ =~= table[2]);
        assert(tasks@[3].commands@[0]@ =~= table[3].commands[0]);
        assert(tasks@[3]@ =~= table[3]);
        assert(tasks@[4].commands@[0]@ =~= table[4].commands[0]);
        assert(tasks@[4]@ =~= table[4]);
        assert(task_views(tasks@) =~= table);
    }
    tasks
}

/// A deep run cleans a Rust or a .NET project before it builds it, and no other
/// run cleans one. Nothing else is different, neither in the commands nor in the
/// names and the places of the projects.
pub proof fn deep_mode_only_adds_cleaning(home: Seq<u8>)
    ensures
        rust_commands(true) == rust_commands(false).insert(1, seq!["cargo"@, "clean"@]),
        dotnet_commands(true) == dotnet_commands(false).insert(1, seq!["dotnet"@, "clean"@]),
        !rust_commands(false).contains(seq!["cargo"@, "clean"@]),
        !dotnet_commands(false).contains(seq!["dotnet"@, "clean"@]),
        project_table(home, true).len() == project_table(home, false).len(),
        forall|i: int|
            0 <= i < project_table(home, true).len() ==> {
                let deep = #[trigger] project_table(home, true)[i];
                let shallow = project_table(home, false)[i];
                deep.name == shallow.name && deep.dir == shallow.dir && (deep.commands
                    == shallow.commands || deep.commands == rust_commands(true)
                    && shallow.commands == rust_commands(false) || deep.commands
                    == dotnet_commands(true) && shallow.commands == dotnet_commands(false))
            },
{
    reveal_strlit("clean");
    reveal_strlit("update");
    reveal_strlit("build");
    reveal_strlit("outdated");
    assert(rust_commands(true) =~= rust_commands(false).insert(1, seq!["cargo"@, "clean"@]));
    assert(dotnet_commands(true) =~= dotnet_commands(false).insert(1, seq!["dotnet"@, "clean"@]));
    assert("update"@.len() != "clean"@.len());
    assert("build"@[0] != "clean"@[0]);
    assert("outdated"@.len() != "clean"@.len());
    assert forall|i: int| 0 <= i < rust_commands(false).len() implies rust_commands(false)[i]
        != seq!["cargo"@, "clean"@] by {
        assert(rust_commands(false)[i][1] != "clean"@);
    }
    assert forall|i: int| 0 <= i < dotnet_commands(false).len() implies dotnet_commands(false)[i]
        != seq!["dotnet"@, "clean"@] by {
        assert(dotnet_commands(false)[i][1] != "clean"@);
    }
}

proof fn lemma_encode_both(a: Seq<char>, b: Seq<char>)
    ensures
        utf8::encode_utf8(a + b) == utf8::encode_utf8(a) + utf8::encode_utf8(b),
    decreases a.len(),
{
    if a.len() == 0 {
        assert(a + b =~= b);
        assert(utf8::encode_utf8(a) + utf8::encode_utf8(b) =~= utf8::encode_utf8(b));
    } else {
        lemma_encode_both(a.drop_first(), b);
        assert((a + b).drop_first() =~= a.drop_first() + b);
        assert(utf8::encode_utf8(a + b) =~= utf8::encode_utf8(a) + utf8::encode_utf8(b));
    }
}

/// What the parts of a path below `home` stand behind.
pub open spec fn with_separator(home: Seq<u8>) -> Seq<u8> {
    if home.len() == 0 || home.last() == 0x2f {
        home
    } else {
        home.push(0x2f)
    }
}

/// A first part stands behind the separator of the base.
proof fn lemma_first_part(home: Seq<u8>, part: Seq<char>)
    requires
        utf8::is_ascii_chars(part),
        part.len() > 0,
        part[0] != '/',
    ensures
        path::path_join(home, utf8::encode_utf8(part)) == with_separator(home)
            + utf8::encode_utf8(part),
{
    utf8::is_ascii_chars_encode_utf8(part);
    utf8::is_ascii_chars_nat_bound(part);
    assert(utf8::encode_utf8(part)[0] == part[0] as u8);
    assert(path::path_join(home, utf8::encode_utf8(part)) =~= with_separator(home)
        + utf8::encode_utf8(part));
}

/// One more part stands behind a slash.
proof fn lemma_next_part(base: Seq<u8>, front: Seq<char>, part: Seq<char>)
    requires
        utf8::is_ascii_chars(front),
        front.len() > 0,
        front.last() != '/',
        utf8::is_ascii_chars(part),
        part.len() > 0,
        part[0] != '/',
    ensures
        path::path_join(base + utf8::encode_utf8(front), utf8::encode_utf8(part)) == base
            + utf8::encode_utf8(front + seq!['/'] + part),
{
    utf8::is_ascii_chars_encode_utf8(front);
    utf8::is_ascii_chars_nat_bound(front);
    utf8::is_ascii_chars_encode_utf8(part);
    utf8::is_ascii_chars_nat_bound(part);
    let slash = seq!['/'];
    assert(utf8::is_ascii_chars(slash));
    utf8::is_ascii_chars_encode_utf8(slash);
    assert(utf8::encode_utf8(slash) =~= seq![0x2fu8]);
    lemma_encode_both(front, slash);
    lemma_encode_both(front + slash, part);
    let before = base + utf8::encode_utf8(front);
    assert(before.last() == front.last() as u8);
    assert(utf8::encode_utf8(part)[0] == part[0] as u8);
    assert(path::path_join(before, utf8::encode_utf8(part)) =~= base + utf8::encode_utf8(
        front + slash + part,
    ));
}

/// The projects lie below the home directory, each in its place, in any run.
pub proof fn projects_lie_below_home(home: Seq<u8>, deep: bool)
    ensures
        ({
            let table = project_table(home, deep);
            let base = with_separator(home);
            &&& table.len() == 5
            &&& table[0].name == "project: lrs"@
            &&& table[0].dir == base + utf8::encode_utf8("Documents/source/rust/lrs"@)
            &&& table[1].name == "project: axes"@
            &&& table[1].dir == base + utf8::encode_utf8("Documents/source/rust/axes"@)
            &&& table[2].name == "project: lcsSln"@
            &&& table[2].dir == base + utf8::encode_utf8("Documents/source/lcsSln"@)
            &&& table[3].name == "project: lpy"@
            &&& table[3].dir == base + utf8::encode_utf8("Documents/source/lpy"@)
            &&& table[4].name == "project: ponytail"@
            &&& table[4].dir == base + utf8::encode_utf8("Documents/source/ponytail"@)
        }),
{
    reveal_strlit("Documents");
    reveal_strlit("source");
    reveal_strlit("rust");
    reveal_strlit("lrs");
    reveal_strlit("axes");
    reveal_strlit("lcsSln");
    reveal_strlit("lpy");
    reveal_strlit("ponytail");
    let base = with_separator(home);
    let one = seq!["Documents"@];
    let two = seq!["Documents"@, "source"@];
    let three = seq!["Documents"@, "source"@, "rust"@];
    let source = "Documents"@ + seq!['/'] + "source"@;
    let rust = source + seq!['/'] + "rust"@;
    assert(one =~= Seq::<Seq<char>>::empty().push("Documents"@));
    path::lemma_path_push(home, Seq::empty(), "Documents"@);
    lemma_first_part(home, "Documents"@);
    assert(path::path_below(home, one) == base + utf8::encode_utf8("Documents"@));
    assert(two =~= one.push("source"@));
    path::lemma_path_push(home, one, "source"@);
    lemma_next_part(base, "Documents"@, "source"@);
    assert(path::path_below(home, two) == base + utf8::encode_utf8(source));
    assert(three =~= two.push("rust"@));
    path::lemma_path_push(home, two, "rust"@);
    lemma_next_part(base, source, "rust"@);
    path::lemma_path_push(home, three, "lrs"@);
    path::lemma_path_push(home, three, "axes"@);
    path::lemma_path_push(home, two, "lcsSln"@);
    path::lemma_path_push(home, two, "lpy"@);
    path::lemma_path_push(home, two, "ponytail"@);
    lemma_next_part(base, rust, "lrs"@);
    lemma_next_part(base, rust, "axes"@);
    lemma_next_part(base, source, "lcsSln"@);
    lemma_next_part(base, source, "lpy"@);
    lemma_next_part(base, source, "ponytail"@);
    assert(three.push("lrs"@) =~= seq!["Documents"@, "source"@, "rust"@, "lrs"@]);
    assert(three.push("axes"@) =~= seq!["Documents"@, "source"@, "rust"@, "axes"@]);
    assert(two.push("lcsSln"@) =~= seq!["Documents"@, "source"@, "lcsSln"@]);
    assert(two.push("lpy"@) =~= seq!["Documents"@, "source"@, "lpy"@]);
    assert(two.push("ponytail"@) =~= seq!["Documents"@, "source"@, "ponytail"@]);
    assert(rust + seq!['/'] + "lrs"@ =~= "Documents/source/rust/lrs"@) by {
        reveal_strlit("Documents/source/rust/lrs");
    }
    assert(rust + seq!['/'] + "axes"@ =~= "Documents/source/rust/axes"@) by {
        reveal_strlit("Documents/source/rust/axes");
    }
    assert(source + seq!['/'] + "lcsSln"@ =~= "Documents/source/lcsSln"@) by {
        reveal_strlit("Documents/source/lcsSln");
    }
    assert(source + seq!['/'] + "lpy"@ =~= "Documents/source/lpy"@) by {
        reveal_strlit("Documents/source/lpy");
    }
    assert(source + seq!['/'] + "ponytail"@ =~= "Documents/source/ponytail"@) by {
        reveal_strlit("Documents/source/ponytail");
    }
}

/// Whether `words` clean a project.
pub open spec fn cleans(words: Seq<Seq<char>>) -> bool {
    words.contains("clean"@)
}

/// Without `deep` no command of any project cleans. With it, the commands of the two
/// projects in Rust and of the .NET project are the same but for one that cleans, which
/// is one of the same tool and stands behind the first, and those of the others are the
/// same.
pub proof fn only_deep_runs_clean(home: Seq<u8>, i: int)
    requires
        0 <= i < 5,
    ensures
        ({
            let deep = project_table(home, true)[i].commands;
            let shallow = project_table(home, false)[i].commands;
            &&& forall|j: int| 0 <= j < shallow.len() ==> !cleans(#[trigger] shallow[j])
            &&& i < 3 ==> {
                &&& deep.len() == shallow.len() + 1
                &&& deep.remove(1) == shallow
                &&& deep[1] == seq![shallow[0][0], "clean"@]
                &&& cleans(deep[1])
            }
            &&& i >= 3 ==> deep == shallow
        }),
{
    reveal_strlit("clean");
    reveal_strlit("cargo");
    reveal_strlit("update");
    reveal_strlit("build");
    reveal_strlit("dotnet");
    reveal_strlit("outdated");
    reveal_strlit("-u");
    reveal_strlit("-i");
    reveal_strlit("-c");
    reveal_strlit("Release");
    reveal_strlit("uv");
    reveal_strlit("sync");
    reveal_strlit("-U");
    reveal_strlit("git");
    reveal_strlit("pull");
    let deep = project_table(home, true)[i].commands;
    let shallow = project_table(home, false)[i].commands;
    assert("build"@[0] != "clean"@[0]);
    assert("cargo"@[1] != "clean"@[1]);
    assert forall|j: int| 0 <= j < shallow.len() implies !cleans(#[trigger] shallow[j]) by {
        let words = shallow[j];
        assert forall|k: int| 0 <= k < words.len() implies words[k] != "clean"@ by {
            assert(words[k].len() != 5 || words[k] == "cargo"@ || words[k] == "build"@);
        }
    }
    if i < 3 {
        assert(deep.remove(1) =~= shallow);
        assert(deep[1] =~= seq![shallow[0][0], "clean"@]);
        assert(deep[1][1] == "clean"@);
    }
}

/// A project is updated by the tools of its kind, whatever the home directory is: the
/// dependencies first, and then all that is to be built.
pub proof fn projects_are_updated_by_their_tools(home: Seq<u8>)
    ensures
        ({
            let table = project_table(home, false);
            let rust = seq![seq!["cargo"@, "update"@], seq!["cargo"@, "build"@]];
            &&& table[0].commands == rust
            &&& table[1].commands == rust
            &&& table[2].commands == seq![
                seq!["dotnet"@, "outdated"@, "-u"@, "-i"@],
                seq!["dotnet"@, "build"@],
                seq!["dotnet"@, "build"@, "-c"@, "Release"@],
            ]
            &&& table[3].commands == seq![seq!["uv"@, "sync"@, "-U"@]]
            &&& table[4].commands == seq![seq!["git"@, "pull"@]]
        }),
{
}

proof fn lemma_two_words(a: Seq<char>, b: Seq<char>)
    ensures
        command::command_line(seq![a, b]) == a + seq![' '] + b,
{
    command::one_space_stands_between_words(seq![a], b);
    command::one_space_stands_between_words(seq![a], a);
    assert(seq![a].push(b) =~= seq![a, b]);
}

proof fn lemma_three_words(a: Seq<char>, b: Seq<char>, c: Seq<char>)
    ensures
        command::command_line(seq![a, b, c]) == a + seq![' '] + b + seq![' '] + c,
{
    lemma_two_words(a, b);
    command::one_space_stands_between_words(seq![a, b], c);
    assert(seq![a, b].push(c) =~= seq![a, b, c]);
}

proof fn lemma_four_words(a: Seq<char>, b: Seq<char>, c: Seq<char>, d: Seq<char>)
    ensures
        command::command_line(seq![a, b, c, d]) == a + seq![' '] + b + seq![' '] + c + seq![' ']
            + d,
{
    lemma_three_words(a, b, c);
    command::one_space_stands_between_words(seq![a, b, c], d);
    assert(seq![a, b, c].push(d) =~= seq![a, b, c, d]);
}

/// Whether `group` is called `name` and has `count` commands.
pub open spec fn is_group(group: GroupView, name: Seq<char>, count: nat) -> bool {
    group.name == name && group.commands.len() == count
}

/// How the command at `j` of the tool chain at `i` reads.
pub open spec fn tool_line(i: int, j: int) -> Seq<char> {
    command::command_line(tool_table()[i].commands[j])
}

#[verifier::spinoff_prover]
#[verifier::rlimit(60)]
proof fn lemma_delve_line()
    ensures
        command::command_line(seq!["go"@, "install"@, "github.com/go-delve/delve/cmd/dlv@latest"@])
            == "go install github.com/go-delve/delve/cmd/dlv@latest"@,
{
    lemma_three_words("go"@, "install"@, "github.com/go-delve/delve/cmd/dlv@latest"@);
    reveal_strlit("go");
    reveal_strlit("install");
    reveal_strlit("github.com/go-delve/delve/cmd/dlv@latest");
    reveal_strlit("go install github.com/go-delve/delve/cmd/dlv@latest");
    assert("go"@ + seq![' '] + "install"@ + seq![' '] + "github.com/go-delve/delve/cmd/dlv@latest"@
        =~= "go install github.com/go-delve/delve/cmd/dlv@latest"@);
}

#[verifier::spinoff_prover]
#[verifier::rlimit(60)]
proof fn lemma_staticcheck_line()
    ensures
        command::command_line(seq!["go"@, "install"@, "honnef.co/go/tools/cmd/staticcheck@latest"@])
            == "go install honnef.co/go/tools/cmd/staticcheck@latest"@,
{
    lemma_three_words("go"@, "install"@, "honnef.co/go/tools/cmd/staticcheck@latest"@);
    reveal_strlit("go");
    reveal_strlit("install");
    reveal_strlit("honnef.co/go/tools/cmd/staticcheck@latest");
    reveal_strlit("go install honnef.co/go/tools/cmd/staticcheck@latest");
    assert("go"@ + seq![' '] + "install"@ + seq![' '] + "honnef.co/go/tools/cmd/staticcheck@latest"@
        =~= "go install honnef.co/go/tools/cmd/staticcheck@latest"@);
}

#[verifier::spinoff_prover]
#[verifier::rlimit(60)]
proof fn lemma_benchstat_line()
    ensures
        command::command_line(seq!["go"@, "install"@, "golang.org/x/perf/cmd/benchstat@latest"@])
            == "go install golang.org/x/perf/cmd/benchstat@latest"@,
{
    lemma_three_words("go"@, "install"@, "golang.org/x/perf/cmd/benchstat@latest"@);
    reveal_strlit("go");
    reveal_strlit("install");
    reveal_strlit("golang.org/x/perf/cmd/benchstat@latest");
    reveal_strlit("go install golang.org/x/perf/cmd/benchstat@latest");
    assert("go"@ + seq![' '] + "install"@ + seq![' '] + "golang.org/x/perf/cmd/benchstat@latest"@
        =~= "go install golang.org/x/perf/cmd/benchstat@latest"@);
}

/// The tool chains, by what they are called and by the lines that update them.
pub proof fn tool_chains_are_updated_by_these_lines()
    ensures
        tool_table().len() == 7,
        is_group(tool_table()[0], "Homebrew"@, 2),
        tool_line(0, 0) == "brew update"@,
        tool_line(0, 1) == "brew upgrade -y"@,
        is_group(tool_table()[1], "Rust"@, 1),
        tool_line(1, 0) == "rustup update"@,
        is_group(tool_table()[2], "Node"@, 1),
        tool_line(2, 0) == "pnpm up -g"@,
        is_group(tool_table()[3], "Global skills"@, 1),
        tool_line(3, 0) == "bunx skills update --global"@,
        is_group(tool_table()[4], ".NET tools"@, 1),
        tool_line(4, 0) == "dotnet updatealltools"@,
        is_group(tool_table()[5], "Cargo tools"@, 1),
        tool_line(5, 0) == "cargo install-update -a"@,
        is_group(tool_table()[6], "Go tools"@, 3),
        tool_line(6, 0) == "go install github.com/go-delve/delve/cmd/dlv@latest"@,
        tool_line(6, 1) == "go install honnef.co/go/tools/cmd/staticcheck@latest"@,
        tool_line(6, 2) == "go install golang.org/x/perf/cmd/benchstat@latest"@,
{
    assert(tool_line(0, 0) =~= "brew update"@) by {
        lemma_two_words("brew"@, "update"@);
        reveal_strlit("brew");
        reveal_strlit("update");
        reveal_strlit("brew update");
    }
    assert(tool_line(0, 1) =~= "brew upgrade -y"@) by {
        lemma_three_words("brew"@, "upgrade"@, "-y"@);
        reveal_strlit("brew");
        reveal_strlit("upgrade");
        reveal_strlit("-y");
        reveal_strlit("brew upgrade -y");
    }
    assert(tool_line(1, 0) =~= "rustup update"@) by {
        lemma_two_words("rustup"@, "update"@);
        reveal_strlit("rustup");
        reveal_strlit("update");
        reveal_strlit("rustup update");
    }
    assert(tool_line(2, 0) =~= "pnpm up -g"@) by {
        lemma_three_words("pnpm"@, "up"@, "-g"@);
        reveal_strlit("pnpm");
        reveal_strlit("up");
        reveal_strlit("-g");
        reveal_strlit("pnpm up -g");
    }
    assert(tool_line(3, 0) =~= "bunx skills update --global"@) by {
        lemma_four_words("bunx"@, "skills"@, "update"@, "--global"@);
        reveal_strlit("bunx");
        reveal_strlit("skills");
        reveal_strlit("update");
        reveal_strlit("--global");
        reveal_strlit("bunx skills update --global");
    }
    assert(tool_line(4, 0) =~= "dotnet updatealltools"@) by {
        lemma_two_words("dotnet"@, "updatealltools"@);
        reveal_strlit("dotnet");
        reveal_strlit("updatealltools");
        reveal_strlit("dotnet updatealltools");
    }
    assert(tool_line(5, 0) =~= "cargo install-update -a"@) by {
        lemma_three_words("cargo"@, "install-update"@, "-a"@);
        reveal_strlit("cargo");
        reveal_strlit("install-update");
        reveal_strlit("-a");
        reveal_strlit("cargo install-update -a");
    }
    lemma_delve_line();
    lemma_staticcheck_line();
    lemma_benchstat_line();
}

/// A list of tool chains or of projects is told one by one, with names, directories and
/// commands.
pub proof fn every_item_of_a_list_counts(
    groups: Seq<WorkGroup>,
    tasks: Seq<ProjectTask>,
    i: int,
)
    ensures
        group_views(groups).len() == groups.len(),
        0 <= i < groups.len() ==> group_views(groups)[i] == (GroupView {
            name: groups[i].name@,
            commands: command::command_views(groups[i].commands@),
        }),
        task_views(tasks).len() == tasks.len(),
        0 <= i < tasks.len() ==> task_views(tasks)[i] == (TaskView {
            name: tasks[i].name@,
            dir: tasks[i].dir.bytes@,
            commands: command::command_views(tasks[i].commands@),
        }),
{
}

} // verus!
