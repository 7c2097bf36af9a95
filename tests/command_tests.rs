use drhpotter::commands::{
    cmd_cat, cmd_cd, cmd_echo, cmd_env, cmd_id, cmd_ip, cmd_ls, cmd_mv, cmd_rm, cmd_uname,
    cmd_whoami, cmd_wget, cmd_curl,
};
use drhpotter::env::EnvVars;
use drhpotter::filesystem::{parse_path, FakeFilesystem};

fn args(a: &[&str]) -> Vec<String> {
    a.iter().map(|s| s.to_string()).collect()
}

#[test]
fn test_cmd_whoami() {
    let mut env = EnvVars::new();
    env.insert("USER".to_string(), "root".to_string());
    assert_eq!(cmd_whoami(&env), "root\n");
}

#[test]
fn test_cmd_id() {
    assert!(cmd_id().contains("uid=0(root)"));
}

#[test]
fn test_cmd_uname() {
    assert!(cmd_uname(&args(&["-a"])).contains("Linux"));
    assert!(cmd_uname(&args(&["-r"])).contains("5.15"));
}

#[test]
fn whoami_without_user_is_root() {
    let env = EnvVars::new();
    assert_eq!(cmd_whoami(&env), "root\n");
    let mut env = EnvVars::new();
    env.insert("USER".to_string(), "admin".to_string());
    assert_eq!(cmd_whoami(&env), "admin\n");
}

#[test]
fn uname_flags_in_priority_order() {
    assert_eq!(cmd_uname(&args(&[])), "Linux\n");
    assert_eq!(cmd_uname(&args(&["-n"])), "honeypot\n");
    assert_eq!(cmd_uname(&args(&["-m"])), "x86_64\n");
    assert_eq!(cmd_uname(&args(&["-m", "-r"])), "5.15.0-58-generic\n");
}

#[test]
fn ls_lists_sorted_and_hides_dot_files() {
    let fs = FakeFilesystem::new();
    let root = parse_path("/root");
    assert_eq!(cmd_ls(&args(&[]), &fs, &root), "");
    assert_eq!(cmd_ls(&args(&["-a"]), &fs, &root), ".bash_history  .bashrc\n");
    let etc = parse_path("/etc");
    assert_eq!(cmd_ls(&args(&[]), &fs, &etc), "hostname  hosts  os-release  passwd  shadow\n");
    let top = parse_path("/");
    assert_eq!(cmd_ls(&args(&[]), &fs, &top), "bin  etc  home  root  sbin  tmp  usr  var\n");
    assert_eq!(
        cmd_ls(&args(&["-la"]), &fs, &root),
        "drwxr-xr-x 2 root root 4096 Nov  9 10:30 .bash_history\ndrwxr-xr-x 2 root root 4096 Nov  9 10:30 .bashrc\n"
    );
    assert_eq!(cmd_ls(&args(&["-l"]), &fs, &root), "");
}

#[test]
fn cd_resolves_against_the_working_directory() {
    let fs = FakeFilesystem::new();
    let mut cwd = parse_path("/root");
    assert_eq!(cmd_cd(&args(&[".."]), &mut cwd, &fs), "");
    assert_eq!(cwd, parse_path("/"));
    assert_eq!(cmd_cd(&args(&[".."]), &mut cwd, &fs), "");
    assert_eq!(cwd, parse_path("/"));
    assert_eq!(cmd_cd(&args(&["etc"]), &mut cwd, &fs), "");
    assert_eq!(cwd, parse_path("/etc"));
    assert_eq!(cmd_cd(&args(&["."]), &mut cwd, &fs), "");
    assert_eq!(cwd, parse_path("/etc"));
    assert_eq!(cmd_cd(&args(&["nowhere"]), &mut cwd, &fs), "cd: nowhere: No such file or directory\n");
    assert_eq!(cwd, parse_path("/etc"));
    assert_eq!(cmd_cd(&args(&["/tmp/"]), &mut cwd, &fs), "");
    assert_eq!(cwd, parse_path("/tmp"));
    assert_eq!(cmd_cd(&args(&[]), &mut cwd, &fs), "");
    assert_eq!(cwd, parse_path("/root"));
}

#[test]
fn cat_reads_files_and_reports_missing_ones() {
    let fs = FakeFilesystem::new();
    let cwd = parse_path("/etc");
    assert_eq!(cmd_cat(&args(&["hostname"]), &fs, &cwd), "honeypot\n\n");
    assert!(cmd_cat(&args(&["/etc/passwd"]), &fs, &cwd).contains("root:"));
    assert_eq!(cmd_cat(&args(&[]), &fs, &cwd), "cat: missing operand\n");
    assert_eq!(cmd_cat(&args(&["nope"]), &fs, &cwd), "cat: nope: No such file or directory\n");
}

#[test]
fn echo_expands_variables() {
    let mut env = EnvVars::new();
    env.insert("HOME".to_string(), "/root".to_string());
    assert_eq!(cmd_echo(&args(&["hi", "$HOME", "$NOPE", "x"]), &env), "hi /root  x\n");
    assert_eq!(cmd_echo(&args(&[]), &env), "\n");
}

#[test]
fn env_lists_in_insertion_order() {
    let mut env = EnvVars::new();
    env.insert("A".to_string(), "1".to_string());
    env.insert("B".to_string(), "2".to_string());
    env.insert("A".to_string(), "3".to_string());
    assert_eq!(cmd_env(&env), "A=3\nB=2\n");
}

#[test]
fn ip_and_operand_checks() {
    assert!(cmd_ip(&args(&["addr"])).starts_with("1: lo:"));
    assert_eq!(cmd_ip(&args(&["route"])), "Usage: ip [ OPTIONS ] OBJECT { COMMAND | help }\n");
    assert_eq!(cmd_rm(&args(&[])), "rm: missing operand\n");
    assert_eq!(cmd_rm(&args(&["x"])), "");
    assert_eq!(cmd_mv(&args(&["x"])), "mv: missing destination file operand\n");
    assert_eq!(cmd_mv(&args(&["x", "y"])), "");
}

#[test]
fn downloads_name_the_last_argument() {
    assert!(cmd_wget(&args(&["-q", "http://a.example/x.sh"])).starts_with("--2025-11-09 10:30:15--  http://a.example/x.sh\n"));
    assert_eq!(cmd_wget(&args(&[])), "wget: missing URL\n");
    assert!(cmd_curl(&args(&["http://b.example"])).contains("Downloaded from http://b.example</body>"));
}
