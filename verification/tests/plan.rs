use daily_ups::command::CommandSpec;
use daily_ups::path::FilePath;
use daily_ups::plan::{
    dotnet_project_commands, project_tasks, rust_project_commands, tool_groups,
};

fn lines(commands: Vec<CommandSpec>) -> Vec<String> {
    commands.into_iter().map(|command| command.display()).collect()
}

#[test]
fn command_display_includes_arguments() {
    let command = CommandSpec {
        program: "dotnet",
        args: &["build", "-c", "Release"],
    };

    assert_eq!(command.display(), "dotnet build -c Release");
}

#[test]
fn a_command_without_arguments_is_its_program() {
    assert_eq!(CommandSpec { program: "pwd", args: &[] }.display(), "pwd");
}

#[test]
fn global_skills_are_reported_as_their_own_group() {
    let groups = tool_groups();
    let global_skills = groups
        .iter()
        .find(|group| group.name == "Global skills")
        .expect("global skills group exists");

    assert_eq!(global_skills.commands.len(), 1);
    assert_eq!(
        global_skills.commands[0].display(),
        "bunx skills update --global"
    );

    let node = groups
        .iter()
        .find(|group| group.name == "Node")
        .expect("node group exists");
    assert!(
        !node
            .commands
            .iter()
            .any(|command| command.display().contains("skills update"))
    );
}

#[test]
fn deep_mode_adds_clean_commands() {
    let rust_commands = rust_project_commands(true)
        .into_iter()
        .map(|command| command.display())
        .collect::<Vec<_>>();
    let dotnet_commands = dotnet_project_commands(true)
        .into_iter()
        .map(|command| command.display())
        .collect::<Vec<_>>();

    assert!(rust_commands.contains(&"cargo clean".to_string()));
    assert!(dotnet_commands.contains(&"dotnet clean".to_string()));
}

#[test]
fn default_mode_omits_clean_commands() {
    let rust_commands = rust_project_commands(false)
        .into_iter()
        .map(|command| command.display())
        .collect::<Vec<_>>();
    let dotnet_commands = dotnet_project_commands(false)
        .into_iter()
        .map(|command| command.display())
        .collect::<Vec<_>>();

    assert!(!rust_commands.contains(&"cargo clean".to_string()));
    assert!(!dotnet_commands.contains(&"dotnet clean".to_string()));
}

#[test]
fn cleaning_comes_second() {
    assert_eq!(lines(rust_project_commands(true)), ["cargo update", "cargo clean", "cargo build"]);
    assert_eq!(lines(rust_project_commands(false)), ["cargo update", "cargo build"]);
    assert_eq!(
        lines(dotnet_project_commands(true)),
        [
            "dotnet outdated -u -i",
            "dotnet clean",
            "dotnet build",
            "dotnet build -c Release",
        ]
    );
    assert_eq!(
        lines(dotnet_project_commands(false)),
        ["dotnet outdated -u -i", "dotnet build", "dotnet build -c Release"]
    );
}

#[test]
fn the_tool_chains_stand_in_their_order() {
    let groups = tool_groups();
    let names: Vec<&str> = groups.iter().map(|group| group.name).collect();

    assert_eq!(
        names,
        [
            "Homebrew",
            "Rust",
            "Node",
            "Global skills",
            ".NET tools",
            "Cargo tools",
            "Go tools",
        ]
    );
    assert_eq!(lines(groups[0].commands.clone()), ["brew update", "brew upgrade -y"]);
    assert_eq!(
        lines(groups[6].commands.clone()),
        [
            "go install github.com/go-delve/delve/cmd/dlv@latest",
            "go install honnef.co/go/tools/cmd/staticcheck@latest",
            "go install golang.org/x/perf/cmd/benchstat@latest",
        ]
    );
}

#[test]
fn ponytail_project_only_pulls() {
    let home = FilePath { bytes: b"/Users/example".to_vec() };
    let ponytail = project_tasks(&home, false)
        .into_iter()
        .find(|project| project.name == "project: ponytail")
        .expect("ponytail project exists");

    assert_eq!(
        ponytail.dir,
        FilePath { bytes: b"/Users/example".to_vec() }
            .join("Documents")
            .join("source")
            .join("ponytail")
    );
    assert_eq!(ponytail.commands.len(), 1);
    assert_eq!(ponytail.commands[0].display(), "git pull");
}

#[test]
fn the_projects_lie_below_the_home_directory() {
    let home = FilePath { bytes: b"/home/\xff/".to_vec() };
    let tasks = project_tasks(&home, true);
    let dirs: Vec<&[u8]> = tasks.iter().map(|task| task.dir.bytes.as_slice()).collect();

    assert_eq!(
        dirs,
        [
            b"/home/\xff/Documents/source/rust/lrs".as_slice(),
            b"/home/\xff/Documents/source/rust/axes".as_slice(),
            b"/home/\xff/Documents/source/lcsSln".as_slice(),
            b"/home/\xff/Documents/source/lpy".as_slice(),
            b"/home/\xff/Documents/source/ponytail".as_slice(),
        ]
    );
    assert_eq!(tasks[0].commands.len(), 3);
    assert_eq!(tasks[2].commands.len(), 4);
    assert_eq!(tasks[3].commands[0].display(), "uv sync -U");
}

#[test]
fn one_separator_stands_between_two_parts() {
    let path = |text: &str| FilePath { bytes: text.as_bytes().to_vec() };

    assert_eq!(path("/a").join("b").bytes, b"/a/b");
    assert_eq!(path("/a/").join("b").bytes, b"/a/b");
    assert_eq!(path("").join("b").bytes, b"b");
    assert_eq!(path("/a").join("/b").bytes, b"/b");
    assert_eq!(path("/a").join("").bytes, b"/a/");
    assert_eq!(path("/a").below(&["b", "c"]).bytes, b"/a/b/c");
}

#[test]
fn paths_are_equal_part_by_part() {
    let path = |text: &str| FilePath { bytes: text.as_bytes().to_vec() };
    let texts = [
        "", ".", "./", "..", "/", "//", "/.", "a", "./a", "a/", "a/.", "a/b", "a//b", "a/./b",
        "/a", "/./a", "//a/", "a/..", "a/../b", "..a", ".a", "a.", "a/...", "./.", "././a",
    ];

    for a in texts {
        for b in texts {
            assert_eq!(
                path(a) == path(b),
                std::path::Path::new(a) == std::path::Path::new(b),
                "{a:?} and {b:?}"
            );
        }
    }
    assert_eq!(path("/a//b"), path("/a/b"));
    assert_ne!(path("./a"), path("a"));
}

#[test]
fn a_path_shows_what_is_no_text_as_replacement() {
    assert_eq!(FilePath { bytes: b"/tmp/\xff\xfe/x".to_vec() }.display(), "/tmp/\u{fffd}\u{fffd}/x");
    assert_eq!(FilePath { bytes: "/tmp/ä".as_bytes().to_vec() }.display(), "/tmp/ä");
}
