//! The fake shell: splits a command line into words and dispatches the
//! first one over a fixed table of built-in commands.

use vstd::prelude::*;
use crate::commands::{
    ID_TEXT, PS_TEXT, IFCONFIG_TEXT, IP_ADDR_TEXT, IP_USAGE, NETSTAT_TEXT, HISTORY_TEXT,
    LOGOUT_TEXT, NOT_FOUND_SUFFIX, user_of, uname_text, ls_text, cd_target, cat_text, echo_text,
    env_text, has_flag, wget_text, curl_text, operand_text, cmd_pwd, cmd_whoami, cmd_id, cmd_uname,
    cmd_ls, cmd_cd, cmd_cat, cmd_echo, cmd_env, cmd_ps, cmd_ifconfig, cmd_ip, cmd_netstat, cmd_wget,
    cmd_curl, cmd_chmod, cmd_chown, cmd_rm, cmd_mkdir, cmd_touch, cmd_cp, cmd_mv, cmd_history,
    cmd_exit,
};
use crate::env::{EnvVars, lemma_key_pos};
use crate::filesystem::{FakeFilesystem, FsView, listing, path_text, path_string};
use crate::text::{views, words, split_words, same_text};

verus! {

/// The built-in commands; any other name is `Unknown`.
#[derive(PartialEq, Eq, Structural, Clone, Copy, Debug)]
pub enum Command {
    Pwd,
    Whoami,
    Id,
    Uname,
    Ls,
    Cd,
    Cat,
    Echo,
    Env,
    Ps,
    Ifconfig,
    Ip,
    Netstat,
    Wget,
    Curl,
    Chmod,
    Chown,
    Rm,
    Mkdir,
    Touch,
    Cp,
    Mv,
    History,
    Exit,
    Unknown,
}

/// The command that a name selects, by exact match.
pub open spec fn command_of(name: Seq<char>) -> Command {
    if name == "pwd"@ {
        Command::Pwd
    } else if name == "whoami"@ {
        Command::Whoami
    } else if name == "id"@ {
        Command::Id
    } else if name == "uname"@ {
        Command::Uname
    } else if name == "ls"@ {
        Command::Ls
    } else if name == "cd"@ {
        Command::Cd
    } else if name == "cat"@ {
        Command::Cat
    } else if name == "echo"@ {
        Command::Echo
    } else if name == "env"@ {
        Command::Env
    } else if name == "ps"@ {
        Command::Ps
    } else if name == "ifconfig"@ {
        Command::Ifconfig
    } else if name == "ip"@ {
        Command::Ip
    } else if name == "netstat"@ {
        Command::Netstat
    } else if name == "wget"@ {
        Command::Wget
    } else if name == "curl"@ {
        Command::Curl
    } else if name == "chmod"@ {
        Command::Chmod
    } else if name == "chown"@ {
        Command::Chown
    } else if name == "rm"@ {
        Command::Rm
    } else if name == "mkdir"@ {
        Command::Mkdir
    } else if name == "touch"@ {
        Command::Touch
    } else if name == "cp"@ {
        Command::Cp
    } else if name == "mv"@ {
        Command::Mv
    } else if name == "history"@ {
        Command::History
    } else if name == "exit"@ || name == "logout"@ {
        Command::Exit
    } else {
        Command::Unknown
    }
}

/// The command that `name` selects.
pub fn parse_command(name: &str) -> (r: Command)
    ensures
        r == command_of(name@),
{
    if same_text(name, "pwd") {
        Command::Pwd
    } else if same_text(name, "whoami") {
        Command::Whoami
    } else if same_text(name, "id") {
        Command::Id
    } else if same_text(name, "uname") {
        Command::Uname
    } else if same_text(name, "ls") {
        Command::Ls
    } else if same_text(name, "cd") {
        Command::Cd
    } else if same_text(name, "cat") {
        Command::Cat
    } else if same_text(name, "echo") {
        Command::Echo
    } else if same_text(name, "env") {
        Command::Env
    } else if same_text(name, "ps") {
        Command::Ps
    } else if same_text(name, "ifconfig") {
        Command::Ifconfig
    } else if same_text(name, "ip") {
        Command::Ip
    } else if same_text(name, "netstat") {
        Command::Netstat
    } else if same_text(name, "wget") {
        Command::Wget
    } else if same_text(name, "curl") {
        Command::Curl
    } else if same_text(name, "chmod") {
        Command::Chmod
    } else if same_text(name, "chown") {
        Command::Chown
    } else if same_text(name, "rm") {
        Command::Rm
    } else if same_text(name, "mkdir") {
        Command::Mkdir
    } else if same_text(name, "touch") {
        Command::Touch
    } else if same_text(name, "cp") {
        Command::Cp
    } else if same_text(name, "mv") {
        Command::Mv
    } else if same_text(name, "history") {
        Command::History
    } else if same_text(name, "exit") || same_text(name, "logout") {
        Command::Exit
    } else {
        Command::Unknown
    }
}

/// What running `name` with `args` prints.
pub open spec fn output_of(
    name: Seq<char>,
    args: Seq<Seq<char>>,
    fs: FsView,
    cwd: Seq<Seq<char>>,
    env: Seq<(Seq<char>, Seq<char>)>,
) -> Seq<char> {
    match command_of(name) {
        Command::Pwd => path_text(cwd) + "\n"@,
        Command::Whoami => user_of(env) + "\n"@,
        Command::Id => ID_TEXT@,
        Command::Uname => uname_text(args),
        Command::Ls => ls_text(args, listing(fs, cwd)),
        Command::Cd => if args.len() == 0 || fs.dirs.contains(cd_target(cwd, args[0])) {
            Seq::empty()
        } else {
            "cd: "@ + args[0] + NOT_FOUND_SUFFIX@
        },
        Command::Cat => cat_text(args, fs, cwd),
        Command::Echo => echo_text(args, env),
        Command::Env => env_text(env),
        Command::Ps => PS_TEXT@,
        Command::Ifconfig => IFCONFIG_TEXT@,
        Command::Ip => if has_flag(args, "addr"@) || has_flag(args, "a"@) {
            IP_ADDR_TEXT@
        } else {
            IP_USAGE@
        },
        Command::Netstat => NETSTAT_TEXT@,
        Command::Wget => wget_text(args),
        Command::Curl => curl_text(args),
        Command::Chmod => operand_text(args, 2, "chmod: missing operand\n"@),
        Command::Chown => operand_text(args, 2, "chown: missing operand\n"@),
        Command::Rm => operand_text(args, 1, "rm: missing operand\n"@),
        Command::Mkdir => operand_text(args, 1, "mkdir: missing operand\n"@),
        Command::Touch => operand_text(args, 1, "touch: missing file operand\n"@),
        Command::Cp => operand_text(args, 2, "cp: missing destination file operand\n"@),
        Command::Mv => operand_text(args, 2, "mv: missing destination file operand\n"@),
        Command::History => HISTORY_TEXT@,
        Command::Exit => LOGOUT_TEXT@,
        Command::Unknown => name + ": command not found\n"@,
    }
}

/// The working directory after running `name` with `args`: only `cd`
/// moves it.
pub open spec fn cwd_after(
    name: Seq<char>,
    args: Seq<Seq<char>>,
    fs: FsView,
    cwd: Seq<Seq<char>>,
) -> Seq<Seq<char>> {
    if command_of(name) == Command::Cd {
        if args.len() == 0 {
            seq!["root"@]
        } else if fs.dirs.contains(cd_target(cwd, args[0])) {
            cd_target(cwd, args[0])
        } else {
            cwd
        }
    } else {
        cwd
    }
}

/// Execute a command in the fake shell.
pub fn execute_command(
    cmd: &str,
    args: &Vec<String>,
    filesystem: &mut FakeFilesystem,
    current_dir: &mut Vec<String>,
    env_vars: &EnvVars,
) -> (r: String)
    ensures
        r@ == output_of(cmd@, views(args@), old(filesystem)@, views(old(current_dir)@), env_vars@),
        views(final(current_dir)@) == cwd_after(cmd@, views(args@), old(filesystem)@, views(old(current_dir)@)),
        final(filesystem)@ == old(filesystem)@,
{
    match parse_command(cmd) {
        Command::Pwd => cmd_pwd(current_dir),
        Command::Whoami => cmd_whoami(env_vars),
        Command::Id => cmd_id(),
        Command::Uname => cmd_uname(args),
        Command::Ls => cmd_ls(args, filesystem, current_dir),
        Command::Cd => {
            proof {
                if args.len() > 0 {
                    assert(views(args@)[0] == args@[0]@);
                }
            }
            cmd_cd(args, current_dir, filesystem)
        },
        Command::Cat => cmd_cat(args, filesystem, current_dir),
        Command::Echo => cmd_echo(args, env_vars),
        Command::Env => cmd_env(env_vars),
        Command::Ps => cmd_ps(),
        Command::Ifconfig => cmd_ifconfig(),
        Command::Ip => cmd_ip(args),
        Command::Netstat => cmd_netstat(),
        Command::Wget => cmd_wget(args),
        Command::Curl => cmd_curl(args),
        Command::Chmod => cmd_chmod(args),
        Command::Chown => cmd_chown(args),
        Command::Rm => cmd_rm(args),
        Command::Mkdir => cmd_mkdir(args),
        Command::Touch => cmd_touch(args),
        Command::Cp => cmd_cp(args),
        Command::Mv => cmd_mv(args),
        Command::History => cmd_history(),
        Command::Exit => cmd_exit(),
        Command::Unknown => {
            let mut r = String::from_str(cmd);
            r.append(": command not found\n");
            r
        },
    }
}

/// Fake shell that emulates a Linux shell session.
pub struct FakeShell {
    filesystem: FakeFilesystem,
    current_dir: Vec<String>,
    env_vars: EnvVars,
}

impl FakeShell {
    /// The session's filesystem.
    pub closed spec fn fs(&self) -> FsView {
        self.filesystem@
    }

    /// The components of the working directory.
    pub closed spec fn cwd(&self) -> Seq<Seq<char>> {
        views(self.current_dir@)
    }

    /// The session's environment, in insertion order.
    pub closed spec fn env(&self) -> Seq<(Seq<char>, Seq<char>)> {
        self.env_vars@
    }

    /// Create a new fake shell in `/root`, as `root`.
    pub fn new() -> (r: Self)
        ensures
            r.cwd() == seq!["root"@],
            r.fs().dirs == FakeFilesystem::seed_dirs(),
            r.fs().files.dom() == FakeFilesystem::seed_files(),
            r.env() == seq![
                ("USER"@, "root"@),
                ("HOME"@, "/root"@),
                ("PATH"@, "/usr/local/sbin:/usr/local/bin:/usr/sbin:/usr/bin:/sbin:/bin"@),
                ("SHELL"@, "/bin/bash"@),
            ],
    {
        let mut env_vars = EnvVars::new();
        proof {
            reveal_strlit("USER");
            reveal_strlit("HOME");
            reveal_strlit("PATH");
            reveal_strlit("SHELL");
            assert("USER"@[0] != "HOME"@[0] && "USER"@[0] != "PATH"@[0] && "USER"@[0] != "SHELL"@[0]);
            assert("HOME"@[0] != "PATH"@[0] && "HOME"@[0] != "SHELL"@[0] && "PATH"@[0] != "SHELL"@[0]);
        }
        env_vars.insert(String::from_str("USER"), String::from_str("root"));
        assert(env_vars@ =~= seq![("USER"@, "root"@)]);
        proof {
            lemma_key_pos(env_vars@, "HOME"@);
        }
        env_vars.insert(String::from_str("HOME"), String::from_str("/root"));
        assert(env_vars@ =~= seq![("USER"@, "root"@), ("HOME"@, "/root"@)]);
        proof {
            lemma_key_pos(env_vars@, "PATH"@);
        }
        env_vars.insert(
            String::from_str("PATH"),
            String::from_str("/usr/local/sbin:/usr/local/bin:/usr/sbin:/usr/bin:/sbin:/bin"),
        );
        assert(env_vars@ =~= seq![
            ("USER"@, "root"@),
            ("HOME"@, "/root"@),
            ("PATH"@, "/usr/local/sbin:/usr/local/bin:/usr/sbin:/usr/bin:/sbin:/bin"@),
        ]);
        proof {
            lemma_key_pos(env_vars@, "SHELL"@);
        }
        env_vars.insert(String::from_str("SHELL"), String::from_str("/bin/bash"));
        let mut current_dir: Vec<String> = Vec::new();
        current_dir.push(String::from_str("root"));
        let r = FakeShell { filesystem: FakeFilesystem::new(), current_dir, env_vars };
        assert(r.cwd() =~= seq!["root"@]);
        r
    }

    /// Execute a command line: its first white-space separated word names
    /// the command, the others are its arguments. A blank line prints
    /// nothing.
    pub fn execute(&mut self, command: &str) -> (r: String)
        ensures
            final(self).fs() == old(self).fs(),
            final(self).env() == old(self).env(),
            words(command@).len() == 0 ==> r@ == Seq::<char>::empty() && final(self).cwd() == old(self).cwd(),
            words(command@).len() > 0 ==> {
                let w = words(command@);
                let args = w.subrange(1, w.len() as int);
                &&& r@ == output_of(w[0], args, old(self).fs(), old(self).cwd(), old(self).env())
                &&& final(self).cwd() == cwd_after(w[0], args, old(self).fs(), old(self).cwd())
            },
    {
        let mut parts = split_words(command);
        if parts.len() == 0 {
            return String::new();
        }
        let ghost w = views(parts@);
        let cmd = parts.remove(0);
        assert(views(parts@) =~= w.subrange(1, w.len() as int));
        execute_command(cmd.as_str(), &parts, &mut self.filesystem, &mut self.current_dir, &self.env_vars)
    }

    /// The text form of the working directory.
    pub fn pwd(&self) -> (r: String)
        ensures
            r@ == path_text(self.cwd()),
    {
        path_string(&self.current_dir)
    }
}

impl Default for FakeShell {
    fn default() -> (r: Self)
        ensures
            r.cwd() == seq!["root"@],
            r.fs().dirs == FakeFilesystem::seed_dirs(),
            r.fs().files.dom() == FakeFilesystem::seed_files(),
    {
        Self::new()
    }
}

} // verus!
