//! The built-in commands of the fake shell. Each one is a function of its
//! arguments, the filesystem, the working directory and the environment.

use vstd::prelude::*;
use crate::env::{EnvVars, env_lookup};
use crate::filesystem::{FakeFilesystem, FsView, listing, path_string, path_of, path_text, parse_path};
use crate::text::{views, joined, strictly_sorted, same_text, join, chars_of};

verus! {

pub const ID_TEXT: &'static str = "uid=0(root) gid=0(root) groups=0(root)\n";

pub const UNAME_ALL: &'static str = "Linux honeypot 5.15.0-58-generic #64-Ubuntu SMP Thu Jan 5 11:43:13 UTC 2023 x86_64 x86_64 x86_64 GNU/Linux\n";

pub const UNAME_RELEASE: &'static str = "5.15.0-58-generic\n";

pub const UNAME_KERNEL: &'static str = "Linux\n";

pub const UNAME_NODE: &'static str = "honeypot\n";

pub const UNAME_MACHINE: &'static str = "x86_64\n";

pub const PS_TEXT: &'static str = "  PID TTY          TIME CMD\n    1 pts/0    00:00:00 bash\n  234 pts/0    00:00:00 ps\n";

pub const IFCONFIG_TEXT: &'static str = "eth0: flags=4163<UP,BROADCAST,RUNNING,MULTICAST>  mtu 1500
        inet 192.168.1.100  netmask 255.255.255.0  broadcast 192.168.1.255
        inet6 fe80::a00:27ff:fe4e:66a1  prefixlen 64  scopeid 0x20<link>
        ether 08:00:27:4e:66:a1  txqueuelen 1000  (Ethernet)
        RX packets 1234  bytes 567890 (567.8 KB)
        RX errors 0  dropped 0  overruns 0  frame 0
        TX packets 890  bytes 123456 (123.4 KB)
        TX errors 0  dropped 0 overruns 0  carrier 0  collisions 0
";

pub const IP_ADDR_TEXT: &'static str = "1: lo: <LOOPBACK,UP,LOWER_UP> mtu 65536 qdisc noqueue state UNKNOWN group default qlen 1000
    link/loopback 00:00:00:00:00:00 brd 00:00:00:00:00:00
    inet 127.0.0.1/8 scope host lo
       valid_lft forever preferred_lft forever
2: eth0: <BROADCAST,MULTICAST,UP,LOWER_UP> mtu 1500 qdisc fq_codel state UP group default qlen 1000
    link/ether 08:00:27:4e:66:a1 brd ff:ff:ff:ff:ff:ff
    inet 192.168.1.100/24 brd 192.168.1.255 scope global eth0
       valid_lft forever preferred_lft forever
";

pub const IP_USAGE: &'static str = "Usage: ip [ OPTIONS ] OBJECT { COMMAND | help }\n";

pub const NETSTAT_TEXT: &'static str = "Active Internet connections (servers and established)
Proto Recv-Q Send-Q Local Address           Foreign Address         State
tcp        0      0 0.0.0.0:22              0.0.0.0:*               LISTEN
tcp        0      0 192.168.1.100:22        192.168.1.50:54321      ESTABLISHED
";

pub const HISTORY_TEXT: &'static str = "    1  uname -a\n    2  whoami\n    3  ls -la\n    4  cat /etc/passwd\n    5  history\n";

pub const LOGOUT_TEXT: &'static str = "logout\n";

/// The start of each line of a long listing; the entry's name follows.
pub const LS_LONG_PREFIX: &'static str = "drwxr-xr-x 2 root root 4096 Nov  9 10:30 ";

pub const NOT_FOUND_SUFFIX: &'static str = ": No such file or directory\n";

pub const WGET_HEAD: &'static str = "--2025-11-09 10:30:15--  ";

pub const WGET_TAIL: &'static str = "\nResolving example.com... 93.184.216.34
Connecting to example.com|93.184.216.34|:80... connected.
HTTP request sent, awaiting response... 200 OK
Length: 1234 (1.2K) [text/html]
Saving to: 'index.html'

index.html          100%[===================>]   1.20K  --.-KB/s    in 0s

2025-11-09 10:30:15 (45.2 MB/s) - 'index.html' saved [1234/1234]
";

pub const WGET_NO_URL: &'static str = "wget: missing URL\n";

pub const CURL_HEAD: &'static str = "<!DOCTYPE html>\n<html>\n<head><title>Example</title></head>\n<body>Downloaded from ";

pub const CURL_TAIL: &'static str = "</body>\n</html>\n";

pub const CURL_NO_URL: &'static str = "curl: try 'curl --help' for more information\n";

/// Whether `f` is one of `args`.
pub open spec fn has_flag(args: Seq<Seq<char>>, f: Seq<char>) -> bool {
    args.contains(f)
}

/// Whether `f` is one of `args`.
pub fn has_arg(args: &Vec<String>, f: &str) -> (r: bool)
    ensures
        r == has_flag(views(args@), f@),
{
    let mut i: usize = 0;
    while i < args.len()
        invariant
            i <= args.len(),
            forall|k: int| 0 <= k < i ==> args@[k]@ != f@,
        decreases args.len() - i,
    {
        if same_text(args[i].as_str(), f) {
            assert(views(args@)[i as int] == f@);
            return true;
        }
        i = i + 1;
    }
    assert(!views(args@).contains(f@)) by {
        if views(args@).contains(f@) {
            let k = choose|k: int| 0 <= k < views(args@).len() && views(args@)[k] == f@;
            assert(args@[k]@ == f@);
        }
    }
    false
}

/// What `uname` prints for the given arguments.
pub open spec fn uname_text(args: Seq<Seq<char>>) -> Seq<char> {
    if has_flag(args, "-a"@) {
        UNAME_ALL@
    } else if has_flag(args, "-r"@) {
        UNAME_RELEASE@
    } else if has_flag(args, "-s"@) {
        UNAME_KERNEL@
    } else if has_flag(args, "-n"@) {
        UNAME_NODE@
    } else if has_flag(args, "-m"@) {
        UNAME_MACHINE@
    } else {
        UNAME_KERNEL@
    }
}

pub fn cmd_id() -> (r: String)
    ensures
        r@ == ID_TEXT@,
{
    String::from_str(ID_TEXT)
}

pub fn cmd_uname(args: &Vec<String>) -> (r: String)
    ensures
        r@ == uname_text(views(args@)),
{
    if has_arg(args, "-a") {
        String::from_str(UNAME_ALL)
    } else if has_arg(args, "-r") {
        String::from_str(UNAME_RELEASE)
    } else if has_arg(args, "-s") {
        String::from_str(UNAME_KERNEL)
    } else if has_arg(args, "-n") {
        String::from_str(UNAME_NODE)
    } else if has_arg(args, "-m") {
        String::from_str(UNAME_MACHINE)
    } else {
        String::from_str(UNAME_KERNEL)
    }
}

pub fn cmd_ps() -> (r: String)
    ensures
        r@ == PS_TEXT@,
{
    String::from_str(PS_TEXT)
}

pub fn cmd_ifconfig() -> (r: String)
    ensures
        r@ == IFCONFIG_TEXT@,
{
    String::from_str(IFCONFIG_TEXT)
}

pub fn cmd_netstat() -> (r: String)
    ensures
        r@ == NETSTAT_TEXT@,
{
    String::from_str(NETSTAT_TEXT)
}

pub fn cmd_history() -> (r: String)
    ensures
        r@ == HISTORY_TEXT@,
{
    String::from_str(HISTORY_TEXT)
}

pub fn cmd_exit() -> (r: String)
    ensures
        r@ == LOGOUT_TEXT@,
{
    String::from_str(LOGOUT_TEXT)
}

pub fn cmd_ip(args: &Vec<String>) -> (r: String)
    ensures
        r@ == if has_flag(views(args@), "addr"@) || has_flag(views(args@), "a"@) {
            IP_ADDR_TEXT@
        } else {
            IP_USAGE@
        },
{
    if has_arg(args, "addr") || has_arg(args, "a") {
        String::from_str(IP_ADDR_TEXT)
    } else {
        String::from_str(IP_USAGE)
    }
}

/// The text form of the working directory followed by a new line.
pub fn cmd_pwd(current_dir: &Vec<String>) -> (r: String)
    ensures
        r@ == path_text(views(current_dir@)) + "\n"@,
{
    let mut r = path_string(current_dir);
    r.append("\n");
    r
}

/// The user name that `whoami` reports.
pub open spec fn user_of(env: Seq<(Seq<char>, Seq<char>)>) -> Seq<char> {
    match env_lookup(env, "USER"@) {
        Some(u) => u,
        None => "root"@,
    }
}

pub fn cmd_whoami(env_vars: &EnvVars) -> (r: String)
    ensures
        r@ == user_of(env_vars@) + "\n"@,
{
    let mut r = match env_vars.get("USER") {
        Some(u) => String::from_str(u),
        None => String::from_str("root"),
    };
    r.append("\n");
    r
}

/// Whether a name is hidden from a plain listing.
pub open spec fn is_hidden(name: Seq<char>) -> bool {
    name.len() > 0 && name[0] == '.'
}

/// The entries that a listing shows.
pub open spec fn shown(entries: Seq<Seq<char>>, all: bool) -> Seq<Seq<char>> {
    entries.filter(|e: Seq<char>| all || !is_hidden(e))
}

/// One long-format line per entry.
pub open spec fn long_lines(entries: Seq<Seq<char>>) -> Seq<char>
    decreases entries.len(),
{
    if entries.len() == 0 {
        Seq::empty()
    } else {
        long_lines(entries.drop_last()) + LS_LONG_PREFIX@ + entries.last() + "\n"@
    }
}

pub open spec fn ls_all(args: Seq<Seq<char>>) -> bool {
    has_flag(args, "-a"@) || has_flag(args, "-la"@) || has_flag(args, "-al"@)
}

pub open spec fn ls_long(args: Seq<Seq<char>>) -> bool {
    has_flag(args, "-l"@) || has_flag(args, "-la"@) || has_flag(args, "-al"@)
}

/// What `ls` prints for the given arguments and the sorted entries of the
/// working directory.
pub open spec fn ls_text(args: Seq<Seq<char>>, entries: Seq<Seq<char>>) -> Seq<char> {
    let v = shown(entries, ls_all(args));
    if ls_long(args) {
        long_lines(v)
    } else if v.len() == 0 {
        Seq::empty()
    } else {
        joined(v, "  "@) + "\n"@
    }
}

fn hidden(name: &str) -> (r: bool)
    ensures
        r == is_hidden(name@),
{
    if name.unicode_len() == 0 {
        false
    } else {
        name.get_char(0) == '.'
    }
}

pub fn cmd_ls(args: &Vec<String>, filesystem: &FakeFilesystem, current_dir: &Vec<String>) -> (r: String)
    ensures
        r@ == ls_text(views(args@), listing(filesystem@, views(current_dir@))),
{
    let show_hidden = has_arg(args, "-a") || has_arg(args, "-la") || has_arg(args, "-al");
    let long_format = has_arg(args, "-l") || has_arg(args, "-la") || has_arg(args, "-al");
    let entries = filesystem.list_dir_at(current_dir);
    let ghost ev = views(entries@);
    let ghost keep = |e: Seq<char>| show_hidden || !is_hidden(e);
    let mut filtered: Vec<String> = Vec::new();
    let mut lines = String::new();
    let mut i: usize = 0;
    assert(ev.subrange(0, 0).filter(keep) =~= Seq::<Seq<char>>::empty());
    while i < entries.len()
        invariant
            i <= entries.len(),
            ev == views(entries@),
            keep == (|e: Seq<char>| show_hidden || !is_hidden(e)),
            views(filtered@) == ev.subrange(0, i as int).filter(keep),
            lines@ == long_lines(views(filtered@)),
        decreases entries.len() - i,
    {
        assert(ev.subrange(0, i + 1) =~= ev.subrange(0, i as int).push(ev[i as int]));
        proof {
            ev.subrange(0, i as int).lemma_filter_push(ev[i as int], keep);
        }
        if show_hidden || !hidden(entries[i].as_str()) {
            let ghost before = views(filtered@);
            filtered.push(entries[i].clone());
            assert(views(filtered@) =~= before.push(ev[i as int]));
            assert(views(filtered@).drop_last() =~= before);
            lines.append(LS_LONG_PREFIX);
            lines.append(entries[i].as_str());
            lines.append("\n");
        }
        i = i + 1;
    }
    assert(ev.subrange(0, ev.len() as int) =~= ev);
    assert(ls_all(views(args@)) == show_hidden);
    assert(ls_long(views(args@)) == long_format);
    if long_format {
        lines
    } else if filtered.len() == 0 {
        String::new()
    } else {
        let mut r = join(&filtered, "  ");
        r.append("\n");
        r
    }
}

/// The directory that `cd` moves to from `cwd` for the given target.
pub open spec fn cd_target(cwd: Seq<Seq<char>>, target: Seq<char>) -> Seq<Seq<char>> {
    if target.len() > 0 && target[0] == '/' {
        path_of(target)
    } else if target == ".."@ {
        if cwd.len() > 0 {
            cwd.drop_last()
        } else {
            cwd
        }
    } else if target == "."@ {
        cwd
    } else {
        cwd + path_of(target)
    }
}

/// The component sequence of `target` read against `cwd`.
fn resolve(cwd: &Vec<String>, target: &str) -> (r: Vec<String>)
    ensures
        views(r@) == if target@.len() > 0 && target@[0] == '/' {
            path_of(target@)
        } else {
            views(cwd@) + path_of(target@)
        },
{
    let rel = parse_path(target);
    if target.unicode_len() > 0 && target.get_char(0) == '/' {
        rel
    } else {
        let mut r = crate::filesystem::copy_path(cwd);
        let mut i: usize = 0;
        while i < rel.len()
            invariant
                i <= rel.len(),
                views(r@) == views(cwd@) + views(rel@).subrange(0, i as int),
            decreases rel.len() - i,
        {
            let ghost before = views(r@);
            r.push(rel[i].clone());
            assert(views(r@) =~= before.push(rel@[i as int]@));
            assert(views(cwd@) + views(rel@).subrange(0, i + 1) =~= (views(cwd@) + views(
                rel@,
            ).subrange(0, i as int)).push(rel@[i as int]@));
            i = i + 1;
        }
        assert(views(rel@).subrange(0, rel.len() as int) =~= views(rel@));
        r
    }
}

pub fn cmd_cd(args: &Vec<String>, current_dir: &mut Vec<String>, filesystem: &FakeFilesystem) -> (r: String)
    ensures
        args@.len() == 0 ==> views(final(current_dir)@) == seq!["root"@] && r@ == Seq::<char>::empty(),
        args@.len() > 0 ==> {
            let t = cd_target(views(old(current_dir)@), args@[0]@);
            if filesystem@.dirs.contains(t) {
                views(final(current_dir)@) == t && r@ == Seq::<char>::empty()
            } else {
                views(final(current_dir)@) == views(old(current_dir)@) && r@ == "cd: "@ + args@[0]@
                    + NOT_FOUND_SUFFIX@
            }
        },
{
    if args.len() == 0 {
        let mut root: Vec<String> = Vec::new();
        root.push(String::from_str("root"));
        assert(views(root@) =~= seq!["root"@]);
        *current_dir = root;
        String::new()
    } else {
        let target = args[0].as_str();
        let new_path = if target.unicode_len() > 0 && target.get_char(0) == '/' {
            resolve(current_dir, target)
        } else if same_text(target, "..") {
            let mut p = crate::filesystem::copy_path(current_dir);
            if p.len() > 0 {
                let ghost before = views(p@);
                p.pop();
                assert(views(p@) =~= before.drop_last());
            }
            p
        } else if same_text(target, ".") {
            crate::filesystem::copy_path(current_dir)
        } else {
            resolve(current_dir, target)
        };
        if filesystem.dir_exists_at(&new_path) {
            *current_dir = new_path;
            String::new()
        } else {
            let mut r = String::from_str("cd: ");
            r.append(target);
            r.append(NOT_FOUND_SUFFIX);
            r
        }
    }
}

/// What `cat` prints.
pub open spec fn cat_text(args: Seq<Seq<char>>, fs: FsView, cwd: Seq<Seq<char>>) -> Seq<char> {
    if args.len() == 0 {
        "cat: missing operand\n"@
    } else {
        let a = args[0];
        let p = if a.len() > 0 && a[0] == '/' {
            path_of(a)
        } else {
            cwd + path_of(a)
        };
        if fs.files.contains_key(p) {
            fs.files[p] + "\n"@
        } else {
            "cat: "@ + a + NOT_FOUND_SUFFIX@
        }
    }
}

pub fn cmd_cat(args: &Vec<String>, filesystem: &FakeFilesystem, current_dir: &Vec<String>) -> (r: String)
    ensures
        r@ == cat_text(views(args@), filesystem@, views(current_dir@)),
{
    if args.len() == 0 {
        return String::from_str("cat: missing operand\n");
    }
    assert(views(args@)[0] == args@[0]@);
    let path = resolve(current_dir, args[0].as_str());
    match filesystem.read_file_at(&path) {
        Some(content) => {
            let mut r = String::from_str(content);
            r.append("\n");
            r
        },
        None => {
            let mut r = String::from_str("cat: ");
            r.append(args[0].as_str());
            r.append(NOT_FOUND_SUFFIX);
            r
        },
    }
}

/// What `echo` prints for one argument: `$NAME` expands to the variable's
/// value, or to nothing.
pub open spec fn echo_word(w: Seq<char>, env: Seq<(Seq<char>, Seq<char>)>) -> Seq<char> {
    if w.len() > 0 && w[0] == '$' {
        match env_lookup(env, w.drop_first()) {
            Some(v) => v,
            None => Seq::empty(),
        }
    } else {
        w
    }
}

pub open spec fn echo_text(args: Seq<Seq<char>>, env: Seq<(Seq<char>, Seq<char>)>) -> Seq<char> {
    joined(args.map_values(|w: Seq<char>| echo_word(w, env)), " "@) + "\n"@
}

pub fn cmd_echo(args: &Vec<String>, env_vars: &EnvVars) -> (r: String)
    ensures
        r@ == echo_text(views(args@), env_vars@),
{
    let ghost f = |w: Seq<char>| echo_word(w, env_vars@);
    let mut words: Vec<String> = Vec::new();
    let mut i: usize = 0;
    while i < args.len()
        invariant
            i <= args.len(),
            f == (|w: Seq<char>| echo_word(w, env_vars@)),
            views(words@) == views(args@).subrange(0, i as int).map_values(f),
        decreases args.len() - i,
    {
        let arg = args[i].as_str();
        let n = arg.unicode_len();
        let w = if n > 0 && arg.get_char(0) == '$' {
            let name = arg.substring_char(1, n);
            assert(name@ =~= arg@.drop_first());
            match env_vars.get(name) {
                Some(v) => String::from_str(v),
                None => String::new(),
            }
        } else {
            String::from_str(arg)
        };
        let ghost before = views(words@);
        words.push(w);
        assert(views(words@) =~= before.push(f(args@[i as int]@)));
        assert(views(args@).subrange(0, i + 1).map_values(f) =~= views(args@).subrange(0, i as int).map_values(f).push(f(args@[i as int]@)));
        i = i + 1;
    }
    assert(views(args@).subrange(0, args.len() as int) =~= views(args@));
    let mut r = join(&words, " ");
    r.append("\n");
    r
}

/// One `NAME=value` line per variable, in insertion order.
pub open spec fn env_text(env: Seq<(Seq<char>, Seq<char>)>) -> Seq<char>
    decreases env.len(),
{
    if env.len() == 0 {
        Seq::empty()
    } else {
        env_text(env.drop_last()) + env.last().0 + "="@ + env.last().1 + "\n"@
    }
}

pub fn cmd_env(env_vars: &EnvVars) -> (r: String)
    ensures
        r@ == env_text(env_vars@),
{
    let mut r = String::new();
    let mut i: usize = 0;
    while i < env_vars.len()
        invariant
            i <= env_vars@.len(),
            r@ == env_text(env_vars@.subrange(0, i as int)),
        decreases env_vars@.len() - i,
    {
        let (k, v) = env_vars.entry(i);
        assert(env_vars@.subrange(0, i + 1).drop_last() =~= env_vars@.subrange(0, i as int));
        r.append(k);
        r.append("=");
        r.append(v);
        r.append("\n");
        i = i + 1;
    }
    assert(env_vars@.subrange(0, env_vars@.len() as int) =~= env_vars@);
    r
}

pub open spec fn wget_text(args: Seq<Seq<char>>) -> Seq<char> {
    if args.len() == 0 {
        WGET_NO_URL@
    } else {
        WGET_HEAD@ + args.last() + WGET_TAIL@
    }
}

pub fn cmd_wget(args: &Vec<String>) -> (r: String)
    ensures
        r@ == wget_text(views(args@)),
{
    if args.len() == 0 {
        return String::from_str(WGET_NO_URL);
    }
    let mut r = String::from_str(WGET_HEAD);
    r.append(args[args.len() - 1].as_str());
    r.append(WGET_TAIL);
    r
}

pub open spec fn curl_text(args: Seq<Seq<char>>) -> Seq<char> {
    if args.len() == 0 {
        CURL_NO_URL@
    } else {
        CURL_HEAD@ + args.last() + CURL_TAIL@
    }
}

pub fn cmd_curl(args: &Vec<String>) -> (r: String)
    ensures
        r@ == curl_text(views(args@)),
{
    if args.len() == 0 {
        return String::from_str(CURL_NO_URL);
    }
    let mut r = String::from_str(CURL_HEAD);
    r.append(args[args.len() - 1].as_str());
    r.append(CURL_TAIL);
    r
}

/// What a command that changes files prints: a complaint when it has fewer
/// than `needed` operands, nothing otherwise.
pub open spec fn operand_text(args: Seq<Seq<char>>, needed: nat, complaint: Seq<char>) -> Seq<char> {
    if args.len() < needed {
        complaint
    } else {
        Seq::empty()
    }
}

pub fn cmd_chmod(args: &Vec<String>) -> (r: String)
    ensures
        r@ == operand_text(views(args@), 2, "chmod: missing operand\n"@),
{
    if args.len() < 2 {
        return String::from_str("chmod: missing operand\n");
    }
    String::new()
}

pub fn cmd_chown(args: &Vec<String>) -> (r: String)
    ensures
        r@ == operand_text(views(args@), 2, "chown: missing operand\n"@),
{
    if args.len() < 2 {
        return String::from_str("chown: missing operand\n");
    }
    String::new()
}

pub fn cmd_rm(args: &Vec<String>) -> (r: String)
    ensures
        r@ == operand_text(views(args@), 1, "rm: missing operand\n"@),
{
    if args.len() < 1 {
        return String::from_str("rm: missing operand\n");
    }
    String::new()
}

pub fn cmd_mkdir(args: &Vec<String>) -> (r: String)
    ensures
        r@ == operand_text(views(args@), 1, "mkdir: missing operand\n"@),
{
    if args.len() < 1 {
        return String::from_str("mkdir: missing operand\n");
    }
    String::new()
}

pub fn cmd_touch(args: &Vec<String>) -> (r: String)
    ensures
        r@ == operand_text(views(args@), 1, "touch: missing file operand\n"@),
{
    if args.len() < 1 {
        return String::from_str("touch: missing file operand\n");
    }
    String::new()
}

pub fn cmd_cp(args: &Vec<String>) -> (r: String)
    ensures
        r@ == operand_text(views(args@), 2, "cp: missing destination file operand\n"@),
{
    if args.len() < 2 {
        return String::from_str("cp: missing destination file operand\n");
    }
    String::new()
}

pub fn cmd_mv(args: &Vec<String>) -> (r: String)
    ensures
        r@ == operand_text(views(args@), 2, "mv: missing destination file operand\n"@),
{
    if args.len() < 2 {
        return String::from_str("mv: missing destination file operand\n");
    }
    String::new()
}

} // verus!
