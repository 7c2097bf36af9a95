use drhpotter::shell::{parse_command, Command, FakeShell};

#[test]
fn test_shell_creation() {
    let shell = FakeShell::new();
    assert_eq!(shell.pwd(), "/root");
}

#[test]
fn test_pwd_command() {
    let mut shell = FakeShell::new();
    let output = shell.execute("pwd");
    assert_eq!(output.trim(), "/root");
}

#[test]
fn test_whoami_command() {
    let mut shell = FakeShell::new();
    let output = shell.execute("whoami");
    assert_eq!(output.trim(), "root");
}

#[test]
fn pwd_right_after_construction() {
    let mut shell = FakeShell::new();
    assert_eq!(shell.execute("pwd"), "/root\n");
}

#[test]
fn whoami_without_override() {
    let mut shell = FakeShell::new();
    assert_eq!(shell.execute("whoami"), "root\n");
}

#[test]
fn cat_passwd_shows_root() {
    let mut shell = FakeShell::new();
    assert!(shell.execute("cat /etc/passwd").contains("root:"));
}

#[test]
fn unknown_and_blank_commands() {
    let mut shell = FakeShell::new();
    assert_eq!(shell.execute("nmap -sS 10.0.0.1"), "nmap: command not found\n");
    assert_eq!(shell.execute("   \t "), "");
    assert_eq!(shell.execute(""), "");
}

#[test]
fn words_are_split_on_any_white_space() {
    let mut shell = FakeShell::new();
    assert_eq!(shell.execute("  echo\t a   b \n"), "a b\n");
}

#[test]
fn cd_changes_what_pwd_reports() {
    let mut shell = FakeShell::new();
    assert_eq!(shell.execute("cd /etc"), "");
    assert_eq!(shell.execute("pwd"), "/etc\n");
    assert_eq!(shell.execute("cd nowhere"), "cd: nowhere: No such file or directory\n");
    assert_eq!(shell.pwd(), "/etc");
    assert!(shell.execute("cat passwd").starts_with("root:x:0:0"));
    assert_eq!(shell.execute("cd"), "");
    assert_eq!(shell.pwd(), "/root");
}

#[test]
fn every_builtin_is_dispatched() {
    let names = [
        ("pwd", Command::Pwd), ("whoami", Command::Whoami), ("id", Command::Id),
        ("uname", Command::Uname), ("ls", Command::Ls), ("cd", Command::Cd), ("cat", Command::Cat),
        ("echo", Command::Echo), ("env", Command::Env), ("ps", Command::Ps),
        ("ifconfig", Command::Ifconfig), ("ip", Command::Ip), ("netstat", Command::Netstat),
        ("wget", Command::Wget), ("curl", Command::Curl), ("chmod", Command::Chmod),
        ("chown", Command::Chown), ("rm", Command::Rm), ("mkdir", Command::Mkdir),
        ("touch", Command::Touch), ("cp", Command::Cp), ("mv", Command::Mv),
        ("history", Command::History), ("exit", Command::Exit), ("logout", Command::Exit),
        ("PWD", Command::Unknown), ("", Command::Unknown),
    ];
    for (name, cmd) in names {
        assert_eq!(parse_command(name), cmd, "{}", name);
    }
}

#[test]
fn mutating_commands_succeed_silently() {
    let mut shell = FakeShell::new();
    assert_eq!(shell.execute("touch /tmp/x"), "");
    assert_eq!(shell.execute("mkdir /tmp/d"), "");
    assert_eq!(shell.execute("chmod +x"), "chmod: missing operand\n");
    assert_eq!(shell.execute("ls /tmp"), "");
    assert_eq!(shell.execute("exit"), "logout\n");
}

#[test]
fn env_shows_the_session_variables() {
    let mut shell = FakeShell::new();
    assert_eq!(
        shell.execute("env"),
        "USER=root\nHOME=/root\nPATH=/usr/local/sbin:/usr/local/bin:/usr/sbin:/usr/bin:/sbin:/bin\nSHELL=/bin/bash\n"
    );
    assert_eq!(shell.execute("echo $SHELL"), "/bin/bash\n");
}
