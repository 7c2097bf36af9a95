//! An in-memory directory tree with file contents, seeded with a small
//! Linux image. Paths are sequences of components; the text form of a path
//! is read component by component, so `/etc/`, `/etc` and `/./etc` agree.

use vstd::prelude::*;
use crate::text::{join, Sep, fields, joined, views, strictly_sorted, text_lt, split_fields, same_text, less_than, lemma_text_lt_total, lemma_text_lt_transitive, lemma_text_lt_irreflexive, lemma_sorted_unique};

verus! {

/// The components that a path's text names: the non-empty fields between
/// slashes, without `.`.
pub open spec fn path_of(p: Seq<char>) -> Seq<Seq<char>> {
    fields(p, Sep::Char('/')).filter(|c: Seq<char>| c.len() > 0 && c != seq!['.'])
}

/// The absolute text form of a component sequence.
pub open spec fn path_text(c: Seq<Seq<char>>) -> Seq<char> {
    seq!['/'] + joined(c, seq!['/'])
}

/// The absolute text form of a component sequence.
pub fn path_string(c: &Vec<String>) -> (r: String)
    ensures
        r@ == path_text(views(c@)),
{
    proof {
        reveal_strlit("/");
    }
    assert("/"@ =~= seq!['/']);
    let mut r = String::from_str("/");
    r.append(join(c, "/").as_str());
    r
}

/// `c` lies directly inside `q`.
pub open spec fn is_child(c: Seq<Seq<char>>, q: Seq<Seq<char>>) -> bool {
    c.len() == q.len() + 1 && c.subrange(0, q.len() as int) == q
}

/// What a filesystem holds: its directories and its files' contents.
pub struct FsView {
    pub dirs: Set<Seq<Seq<char>>>,
    pub files: Map<Seq<Seq<char>>, Seq<char>>,
}

/// The names of the entries directly inside `q`.
pub open spec fn child_names(v: FsView, q: Seq<Seq<char>>) -> Set<Seq<char>> {
    Set::new(
        |n: Seq<char>|
            exists|c: Seq<Seq<char>>|
                (v.dirs.contains(c) || v.files.contains_key(c)) && #[trigger] is_child(c, q)
                    && c.last() == n,
    )
}

/// The names directly inside `q`, sorted.
pub open spec fn listing(v: FsView, q: Seq<Seq<char>>) -> Seq<Seq<char>> {
    choose|s: Seq<Seq<char>>| strictly_sorted(s) && s.to_set() == child_names(v, q)
}

/// The last components of the paths of `s` that lie directly inside `q`.
pub open spec fn names_inside(s: Seq<Seq<Seq<char>>>, q: Seq<Seq<char>>) -> Set<Seq<char>> {
    Set::new(
        |n: Seq<char>| exists|k: int| 0 <= k < s.len() && #[trigger] is_child(s[k], q) && s[k].last() == n,
    )
}

proof fn lemma_names_inside_step(s: Seq<Seq<Seq<char>>>, i: int, q: Seq<Seq<char>>)
    requires
        0 <= i < s.len(),
    ensures
        names_inside(s.subrange(0, i + 1), q) == if is_child(s[i], q) {
            names_inside(s.subrange(0, i), q).insert(s[i].last())
        } else {
            names_inside(s.subrange(0, i), q)
        },
{
    let a = s.subrange(0, i + 1);
    let b = s.subrange(0, i);
    let rhs = if is_child(s[i], q) {
        names_inside(b, q).insert(s[i].last())
    } else {
        names_inside(b, q)
    };
    assert forall|n: Seq<char>| names_inside(a, q).contains(n) implies rhs.contains(n) by {
        let k = choose|k: int| 0 <= k < a.len() && #[trigger] is_child(a[k], q) && a[k].last() == n;
        if k < i {
            assert(b[k] == a[k]);
        }
    }
    assert forall|n: Seq<char>| rhs.contains(n) implies names_inside(a, q).contains(n) by {
        if is_child(s[i], q) && n == s[i].last() {
            assert(a[i] == s[i]);
        } else {
            let k = choose|k: int| 0 <= k < b.len() && #[trigger] is_child(b[k], q) && b[k].last() == n;
            assert(a[k] == b[k]);
        }
    }
    assert(names_inside(a, q) =~= rhs);
}

/// One file: where it is and what it holds.
pub struct FileEntry {
    pub path: Vec<String>,
    pub content: String,
}

/// The files of a list, a later entry for a path hiding an earlier one.
pub open spec fn file_map(s: Seq<(Seq<Seq<char>>, Seq<char>)>) -> Map<Seq<Seq<char>>, Seq<char>>
    decreases s.len(),
{
    if s.len() == 0 {
        Map::empty()
    } else {
        file_map(s.drop_last()).insert(s.last().0, s.last().1)
    }
}

proof fn lemma_file_map_contains(s: Seq<(Seq<Seq<char>>, Seq<char>)>, p: Seq<Seq<char>>)
    ensures
        file_map(s).contains_key(p) <==> exists|i: int| 0 <= i < s.len() && (#[trigger] s[i]).0 == p,
    decreases s.len(),
{
    if s.len() > 0 {
        let t = s.drop_last();
        lemma_file_map_contains(t, p);
        if file_map(t).contains_key(p) {
            let i = choose|i: int| 0 <= i < t.len() && (#[trigger] t[i]).0 == p;
            assert(s[i].0 == p);
        }
        if exists|i: int| 0 <= i < s.len() && (#[trigger] s[i]).0 == p {
            let i = choose|i: int| 0 <= i < s.len() && (#[trigger] s[i]).0 == p;
            if i < t.len() {
                assert(t[i].0 == p);
            }
        }
    }
}

proof fn lemma_file_map_value(s: Seq<(Seq<Seq<char>>, Seq<char>)>, i: int)
    requires
        0 <= i < s.len(),
        forall|j: int| i < j < s.len() ==> s[j].0 != s[i].0,
    ensures
        file_map(s)[s[i].0] == s[i].1,
    decreases s.len(),
{
    let t = s.drop_last();
    if i < t.len() {
        assert(s[s.len() - 1].0 != s[i].0);
        lemma_file_map_value(t, i);
    }
}

proof fn lemma_file_map_update(
    s: Seq<(Seq<Seq<char>>, Seq<char>)>,
    i: int,
    c: Seq<char>,
)
    requires
        0 <= i < s.len(),
        forall|j: int| i < j < s.len() ==> s[j].0 != s[i].0,
    ensures
        file_map(s.update(i, (s[i].0, c))) == file_map(s).insert(s[i].0, c),
    decreases s.len(),
{
    let u = s.update(i, (s[i].0, c));
    if i == s.len() - 1 {
        assert(u.drop_last() =~= s.drop_last());
        assert(file_map(u) =~= file_map(s).insert(s[i].0, c));
    } else {
        let t = s.drop_last();
        assert(u.drop_last() =~= t.update(i, (t[i].0, c)));
        lemma_file_map_update(t, i, c);
        assert(file_map(u) =~= file_map(s).insert(s[i].0, c));
    }
}

/// Fake filesystem that exists only in memory.
pub struct FakeFilesystem {
    dirs: Vec<Vec<String>>,
    files: Vec<FileEntry>,
}

impl FakeFilesystem {
    pub closed spec fn dir_list(&self) -> Seq<Seq<Seq<char>>> {
        self.dirs@.map_values(|d: Vec<String>| views(d@))
    }

    pub closed spec fn file_list(&self) -> Seq<(Seq<Seq<char>>, Seq<char>)> {
        self.files@.map_values(|e: FileEntry| (views(e.path@), e.content@))
    }

    /// The directories and files that the filesystem holds.
    pub open spec fn view(&self) -> FsView {
        FsView { dirs: self.dir_list().to_set(), files: file_map(self.file_list()) }
    }
}

/// The component sequence that the text `p` names.
pub fn parse_path(p: &str) -> (r: Vec<String>)
    ensures
        views(r@) == path_of(p@),
{
    let v = split_fields(p, Sep::Char('/'));
    let mut out: Vec<String> = Vec::new();
    let mut i: usize = 0;
    proof {
        reveal_strlit(".");
    }
    while i < v.len()
        invariant
            i <= v.len(),
            "."@ == seq!['.'],
            views(out@) == views(v@.subrange(0, i as int)).filter(
                |c: Seq<char>| c.len() > 0 && c != seq!['.'],
            ),
        decreases v.len() - i,
    {
        let ghost pre = views(v@.subrange(0, i as int));
        assert(views(v@.subrange(0, i + 1)) =~= pre.push(v@[i as int]@));
        proof {
            pre.lemma_filter_push(v@[i as int]@, |c: Seq<char>| c.len() > 0 && c != seq!['.']);
        }
        let ghost before = views(out@);
        if v[i].unicode_len() > 0 && !same_text(v[i].as_str(), ".") {
            out.push(v[i].clone());
            assert(views(out@) =~= before.push(v@[i as int]@));
        }
        i = i + 1;
    }
    assert(v@.subrange(0, v.len() as int) =~= v@);
    out
}

/// Whether two component sequences are the same path.
pub fn same_path(a: &Vec<String>, b: &Vec<String>) -> (r: bool)
    ensures
        r == (views(a@) == views(b@)),
{
    if a.len() != b.len() {
        return false;
    }
    let mut i: usize = 0;
    while i < a.len()
        invariant
            a.len() == b.len(),
            i <= a.len(),
            forall|k: int| 0 <= k < i ==> a@[k]@ == b@[k]@,
        decreases a.len() - i,
    {
        if !same_text(a[i].as_str(), b[i].as_str()) {
            assert(views(a@)[i as int] != views(b@)[i as int]);
            return false;
        }
        i = i + 1;
    }
    assert(views(a@) =~= views(b@));
    true
}

/// Whether `c` lies directly inside `q`.
fn child_of(c: &Vec<String>, q: &Vec<String>) -> (r: bool)
    ensures
        r == is_child(views(c@), views(q@)),
{
    if c.len() == 0 || c.len() - 1 != q.len() {
        return false;
    }
    let mut i: usize = 0;
    while i < q.len()
        invariant
            c.len() == q.len() + 1,
            i <= q.len(),
            forall|k: int| 0 <= k < i ==> c@[k]@ == q@[k]@,
        decreases q.len() - i,
    {
        if !same_text(c[i].as_str(), q[i].as_str()) {
            assert(views(c@).subrange(0, q.len() as int)[i as int] != views(q@)[i as int]);
            return false;
        }
        i = i + 1;
    }
    assert(views(c@).subrange(0, q.len() as int) =~= views(q@));
    true
}

/// Adds `x` to a strictly sorted list, keeping it strictly sorted.
fn insert_sorted(v: &mut Vec<String>, x: String)
    requires
        strictly_sorted(views(old(v)@)),
    ensures
        strictly_sorted(views(final(v)@)),
        views(final(v)@).to_set() == views(old(v)@).to_set().insert(x@),
{
    let ghost old_v = views(v@);
    let mut i: usize = 0;
    while i < v.len() && less_than(v[i].as_str(), x.as_str())
        invariant
            views(v@) == old_v,
            strictly_sorted(old_v),
            i <= v.len(),
            forall|k: int| 0 <= k < i ==> text_lt(old_v[k], x@),
        decreases v.len() - i,
    {
        i = i + 1;
    }
    if i < v.len() && same_text(v[i].as_str(), x.as_str()) {
        assert(old_v[i as int] == x@);
        assert(old_v.to_set().insert(x@) =~= old_v.to_set());
        return;
    }
    let ghost xv = x@;
    proof {
        if i < v.len() {
            lemma_text_lt_total(old_v[i as int], x@);
        }
    }
    v.insert(i, x);
    let ghost nv = views(v@);
    assert(nv =~= old_v.insert(i as int, xv));
    assert forall|a: int, b: int| 0 <= a < b < nv.len() implies text_lt(
        #[trigger] nv[a],
        #[trigger] nv[b],
    ) by {
        if b < i {
        } else if b == i {
        } else if a < i {
            assert(nv[b] == old_v[b - 1]);
            if i < old_v.len() {
                assert(text_lt(xv, old_v[i as int]));
                if b - 1 > i {
                    lemma_text_lt_transitive(xv, old_v[i as int], old_v[b - 1]);
                }
                lemma_text_lt_transitive(old_v[a], xv, old_v[b - 1]);
            }
        } else if a == i {
            if b - 1 > i {
                lemma_text_lt_transitive(xv, old_v[i as int], old_v[b - 1]);
            }
        } else {
            assert(nv[a] == old_v[a - 1]);
            assert(nv[b] == old_v[b - 1]);
        }
    }
    assert(nv.to_set() =~= old_v.to_set().insert(xv)) by {
        assert forall|e: Seq<char>| nv.to_set().contains(e) implies old_v.to_set().insert(
            xv,
        ).contains(e) by {
            let k = choose|k: int| 0 <= k < nv.len() && nv[k] == e;
            if k > i {
                assert(old_v[k - 1] == e);
            } else if k < i {
                assert(old_v[k] == e);
            }
        }
        assert forall|e: Seq<char>| old_v.to_set().insert(xv).contains(e) implies nv.to_set().contains(
            e,
        ) by {
            if e == xv {
                assert(nv[i as int] == e);
            } else {
                let k = choose|k: int| 0 <= k < old_v.len() && old_v[k] == e;
                if k < i {
                    assert(nv[k] == e);
                } else {
                    assert(nv[k + 1] == e);
                }
            }
        }
    }
}

/// A copy of a component sequence.
pub fn copy_path(a: &Vec<String>) -> (r: Vec<String>)
    ensures
        views(r@) == views(a@),
{
    let mut r: Vec<String> = Vec::new();
    let mut i: usize = 0;
    while i < a.len()
        invariant
            i <= a.len(),
            views(r@) == views(a@.subrange(0, i as int)),
        decreases a.len() - i,
    {
        let ghost before = views(r@);
        r.push(a[i].clone());
        assert(views(r@) =~= before.push(a@[i as int]@));
        assert(views(a@.subrange(0, i + 1)) =~= views(a@.subrange(0, i as int)).push(a@[i as int]@));
        i = i + 1;
    }
    assert(a@.subrange(0, a.len() as int) =~= a@);
    r
}

/// The path with no component: the root.
fn path0() -> (r: Vec<String>)
    ensures
        views(r@) == Seq::<Seq<char>>::empty(),
{
    let r: Vec<String> = Vec::new();
    assert(views(r@) =~= Seq::<Seq<char>>::empty());
    r
}

/// The path of a single component.
fn path1(a: &str) -> (r: Vec<String>)
    ensures
        views(r@) == seq![a@],
{
    let mut r: Vec<String> = Vec::new();
    r.push(String::from_str(a));
    assert(views(r@) =~= seq![a@]);
    r
}

/// The path of two components.
fn path2(a: &str, b: &str) -> (r: Vec<String>)
    ensures
        views(r@) == seq![a@, b@],
{
    let mut r: Vec<String> = Vec::new();
    r.push(String::from_str(a));
    r.push(String::from_str(b));
    assert(views(r@) =~= seq![a@, b@]);
    r
}

impl FakeFilesystem {
    /// The directories that a fresh filesystem holds.
    pub open spec fn seed_dirs() -> Set<Seq<Seq<char>>> {
        set![
            seq![],
            seq!["root"@],
            seq!["home"@],
            seq!["etc"@],
            seq!["var"@],
            seq!["tmp"@],
            seq!["usr"@],
            seq!["bin"@],
            seq!["sbin"@],
        ]
    }

    /// The paths of the files that a fresh filesystem holds.
    pub open spec fn seed_files() -> Set<Seq<Seq<char>>> {
        set![
            seq!["etc"@, "passwd"@],
            seq!["etc"@, "shadow"@],
            seq!["etc"@, "hosts"@],
            seq!["etc"@, "hostname"@],
            seq!["etc"@, "os-release"@],
            seq!["root"@, ".bashrc"@],
            seq!["root"@, ".bash_history"@],
        ]
    }

    /// Create a new fake filesystem with a common Linux directory structure.
    pub fn new() -> (r: Self)
        ensures
            r@.dirs == Self::seed_dirs(),
            r@.files.dom() == Self::seed_files(),
            r@.files[seq!["etc"@, "hostname"@]] == "honeypot\n"@,
    {
        let mut fs = FakeFilesystem { dirs: Vec::new(), files: Vec::new() };
        fs.create_dir(path0());
        fs.create_dir(path1("root"));
        fs.create_dir(path1("home"));
        fs.create_dir(path1("etc"));
        fs.create_dir(path1("var"));
        fs.create_dir(path1("tmp"));
        fs.create_dir(path1("usr"));
        fs.create_dir(path1("bin"));
        fs.create_dir(path1("sbin"));
        let ghost d = fs.dir_list();
        assert(d.to_set() =~= Self::seed_dirs()) by {
            assert(d =~= seq![
                seq![],
                seq!["root"@],
                seq!["home"@],
                seq!["etc"@],
                seq!["var"@],
                seq!["tmp"@],
                seq!["usr"@],
                seq!["bin"@],
                seq!["sbin"@],
            ]);
            assert forall|x| d.to_set().contains(x) implies Self::seed_dirs().contains(x) by {
                let k = choose|k: int| 0 <= k < d.len() && d[k] == x;
            }
            assert forall|x| Self::seed_dirs().contains(x) implies d.to_set().contains(x) by {
                if x == d[0] {} else if x == d[1] {} else if x == d[2] {} else if x == d[3] {}
                else if x == d[4] {} else if x == d[5] {} else if x == d[6] {} else if x == d[7] {}
                else { assert(x == d[8]); }
            }
        }

        fs.create_file(
            path2("etc", "passwd"),
            "root:x:0:0:root:/root:/bin/bash\n\
             daemon:x:1:1:daemon:/usr/sbin:/usr/sbin/nologin\n\
             bin:x:2:2:bin:/bin:/usr/sbin/nologin\n\
             sys:x:3:3:sys:/dev:/usr/sbin/nologin\n\
             sync:x:4:65534:sync:/bin:/bin/sync\n\
             www-data:x:33:33:www-data:/var/www:/usr/sbin/nologin\n\
             nobody:x:65534:65534:nobody:/nonexistent:/usr/sbin/nologin\n",
        );
        fs.create_file(
            path2("etc", "shadow"),
            "root:$6$rounds=656000$YT...:19000:0:99999:7:::\n\
             daemon:*:18375:0:99999:7:::\n\
             bin:*:18375:0:99999:7:::\n",
        );
        fs.create_file(
            path2("etc", "hosts"),
            "127.0.0.1\tlocalhost\n\
             127.0.1.1\thoneypot\n\
             \n\
             ::1     localhost ip6-localhost ip6-loopback\n\
             ff02::1 ip6-allnodes\n\
             ff02::2 ip6-allrouters\n",
        );
        fs.create_file(path2("etc", "hostname"), "honeypot\n");
        let ghost before_root = fs@.files;
        fs.create_file(
            path2("etc", "os-release"),
            "PRETTY_NAME=\"Ubuntu 22.04.1 LTS\"\n\
             NAME=\"Ubuntu\"\n\
             VERSION_ID=\"22.04\"\n\
             VERSION=\"22.04.1 LTS (Jammy Jellyfish)\"\n\
             VERSION_CODENAME=jammy\n\
             ID=ubuntu\n\
             ID_LIKE=debian\n",
        );
        fs.create_file(
            path2("root", ".bashrc"),
            "# .bashrc\n\
             \n\
             # If not running interactively, don't do anything\n\
             case $- in\n\
                 *i*) ;;\n\
                   *) return;;\n\
             esac\n",
        );
        fs.create_file(
            path2("root", ".bash_history"),
            "ls -la\n\
             cd /tmp\n\
             wget http://example.com/script.sh\n\
             chmod +x script.sh\n\
             ./script.sh\n",
        );
        assert(fs@.files.dom() =~= Self::seed_files());
        proof {
            reveal_strlit("root");
            reveal_strlit("etc");
            reveal_strlit("hostname");
            reveal_strlit("os-release");
            assert(seq!["root"@, ".bash_history"@][0].len() != seq!["etc"@, "hostname"@][0].len());
            assert(seq!["root"@, ".bashrc"@][0].len() != seq!["etc"@, "hostname"@][0].len());
            assert(seq!["etc"@, "os-release"@][1].len() != seq!["etc"@, "hostname"@][1].len());
        }
        assert(fs@.files[seq!["etc"@, "hostname"@]] == before_root[seq!["etc"@, "hostname"@]]);
        fs
    }

    /// Adds a directory.
    fn create_dir(&mut self, path: Vec<String>)
        ensures
            final(self).dir_list() == old(self).dir_list().push(views(path@)),
            final(self).file_list() == old(self).file_list(),
    {
        self.dirs.push(path);
        assert(self.dir_list() =~= old(self).dir_list().push(views(path@)));
    }

    /// Adds a file with the given content.
    fn create_file(&mut self, path: Vec<String>, content: &str)
        ensures
            final(self)@.dirs == old(self)@.dirs,
            final(self)@.files == old(self)@.files.insert(views(path@), content@),
            final(self).dir_list() == old(self).dir_list(),
    {
        self.write_file_at(path, String::from_str(content));
    }

    /// Whether the directory of the given components exists.
    pub fn dir_exists_at(&self, path: &Vec<String>) -> (r: bool)
        ensures
            r == self@.dirs.contains(views(path@)),
    {
        let mut i: usize = 0;
        while i < self.dirs.len()
            invariant
                i <= self.dirs.len(),
                forall|k: int| 0 <= k < i ==> self.dir_list()[k] != views(path@),
            decreases self.dirs.len() - i,
        {
            if same_path(&self.dirs[i], path) {
                assert(self.dir_list()[i as int] == views(path@));
                return true;
            }
            i = i + 1;
        }
        proof {
            if self.dir_list().to_set().contains(views(path@)) {
                let k = choose|k: int| 0 <= k < self.dir_list().len() && self.dir_list()[k] == views(path@);
            }
        }
        false
    }

    /// Check if a directory exists.
    pub fn dir_exists(&self, path: &str) -> (r: bool)
        ensures
            r == self@.dirs.contains(path_of(path@)),
    {
        self.dir_exists_at(&parse_path(path))
    }

    /// The index of the last entry for `path`, if any.
    fn find_file(&self, path: &Vec<String>) -> (r: Option<usize>)
        ensures
            match r {
                Some(i) => i < self.files.len() && self.file_list()[i as int].0 == views(path@)
                    && forall|j: int| i < j < self.files.len() ==> self.file_list()[j].0 != views(path@),
                None => forall|j: int| 0 <= j < self.files.len() ==> self.file_list()[j].0 != views(path@),
            },
    {
        let mut i: usize = self.files.len();
        while i > 0
            invariant
                i <= self.files.len(),
                forall|j: int| i <= j < self.files.len() ==> self.file_list()[j].0 != views(path@),
            decreases i,
        {
            i = i - 1;
            if same_path(&self.files[i].path, path) {
                return Some(i);
            }
        }
        None
    }

    /// Read the file of the given components.
    pub fn read_file_at(&self, path: &Vec<String>) -> (r: Option<&str>)
        ensures
            match r {
                Some(t) => self@.files.contains_key(views(path@)) && t@ == self@.files[views(path@)],
                None => !self@.files.contains_key(views(path@)),
            },
    {
        proof {
            lemma_file_map_contains(self.file_list(), views(path@));
        }
        match self.find_file(path) {
            Some(i) => {
                proof {
                    lemma_file_map_value(self.file_list(), i as int);
                }
                Some(self.files[i].content.as_str())
            },
            None => None,
        }
    }

    /// Read a file.
    pub fn read_file(&self, path: &str) -> (r: Option<&str>)
        ensures
            match r {
                Some(t) => self@.files.contains_key(path_of(path@)) && t@ == self@.files[path_of(path@)],
                None => !self@.files.contains_key(path_of(path@)),
            },
    {
        self.read_file_at(&parse_path(path))
    }

    /// The names directly inside the directory of the given components,
    /// sorted and without duplicates.
    pub fn list_dir_at(&self, path: &Vec<String>) -> (r: Vec<String>)
        ensures
            views(r@) == listing(self@, views(path@)),
            strictly_sorted(views(r@)),
            views(r@).to_set() == child_names(self@, views(path@)),
    {
        let ghost q = views(path@);
        let ghost ds = self.dir_list();
        let ghost fps = self.file_list().map_values(|e: (Seq<Seq<char>>, Seq<char>)| e.0);
        let mut out: Vec<String> = Vec::new();
        assert(names_inside(ds.subrange(0, 0), q) =~= Set::empty());
        assert(views(out@).to_set() =~= Set::empty());
        let mut i: usize = 0;
        while i < self.dirs.len()
            invariant
                i <= self.dirs.len(),
                ds == self.dir_list(),
                q == views(path@),
                strictly_sorted(views(out@)),
                views(out@).to_set() == names_inside(ds.subrange(0, i as int), q),
            decreases self.dirs.len() - i,
        {
            proof {
                lemma_names_inside_step(ds, i as int, q);
            }
            if child_of(&self.dirs[i], path) {
                let d = &self.dirs[i];
                insert_sorted(&mut out, d[d.len() - 1].clone());
                assert(ds[i as int].last() == d@[d.len() - 1]@);
            }
            i = i + 1;
        }
        assert(ds.subrange(0, ds.len() as int) =~= ds);
        let ghost from_dirs = views(out@).to_set();
        assert(names_inside(fps.subrange(0, 0), q) =~= Set::empty());
        let mut j: usize = 0;
        while j < self.files.len()
            invariant
                j <= self.files.len(),
                fps == self.file_list().map_values(|e: (Seq<Seq<char>>, Seq<char>)| e.0),
                q == views(path@),
                strictly_sorted(views(out@)),
                views(out@).to_set() == from_dirs.union(names_inside(fps.subrange(0, j as int), q)),
            decreases self.files.len() - j,
        {
            proof {
                lemma_names_inside_step(fps, j as int, q);
            }
            let ghost before = views(out@).to_set();
            if child_of(&self.files[j].path, path) {
                let f = &self.files[j].path;
                assert(fps[j as int] == views(f@));
                insert_sorted(&mut out, f[f.len() - 1].clone());
                assert(views(out@).to_set() =~= from_dirs.union(names_inside(fps.subrange(0, j + 1), q)));
            } else {
                assert(views(out@).to_set() =~= from_dirs.union(names_inside(fps.subrange(0, j + 1), q)));
            }
            j = j + 1;
        }
        assert(fps.subrange(0, fps.len() as int) =~= fps);
        assert forall|n: Seq<char>| child_names(self@, q).contains(n) implies views(out@).to_set().contains(n) by {
            let c = choose|c: Seq<Seq<char>>|
                (self@.dirs.contains(c) || self@.files.contains_key(c)) && #[trigger] is_child(c, q)
                    && c.last() == n;
            if self@.dirs.contains(c) {
                let k = choose|k: int| 0 <= k < ds.len() && ds[k] == c;
                assert(is_child(ds[k], q));
            } else {
                lemma_file_map_contains(self.file_list(), c);
                let k = choose|k: int| 0 <= k < self.file_list().len() && (#[trigger] self.file_list()[k]).0 == c;
                assert(fps[k] == c);
                assert(is_child(fps[k], q));
            }
        }
        assert forall|n: Seq<char>| views(out@).to_set().contains(n) implies child_names(self@, q).contains(n) by {
            if from_dirs.contains(n) {
                let k = choose|k: int| 0 <= k < ds.len() && #[trigger] is_child(ds[k], q) && ds[k].last() == n;
                assert(ds.to_set().contains(ds[k]));
                assert(is_child(ds[k], q));
            } else {
                let k = choose|k: int| 0 <= k < fps.len() && #[trigger] is_child(fps[k], q) && fps[k].last() == n;
                lemma_file_map_contains(self.file_list(), fps[k]);
                assert(self.file_list()[k].0 == fps[k]);
                assert(is_child(fps[k], q));
            }
        }
        assert(views(out@).to_set() =~= child_names(self@, q));
        proof {
            let l = listing(self@, q);
            lemma_sorted_unique(l, views(out@));
        }
        out
    }

    /// List directory contents.
    pub fn list_dir(&self, path: &str) -> (r: Vec<String>)
        ensures
            views(r@) == listing(self@, path_of(path@)),
            strictly_sorted(views(r@)),
            views(r@).to_set() == child_names(self@, path_of(path@)),
    {
        self.list_dir_at(&parse_path(path))
    }

    /// Store `content` as the file of the given components.
    pub fn write_file_at(&mut self, path: Vec<String>, content: String)
        ensures
            final(self)@.dirs == old(self)@.dirs,
            final(self)@.files == old(self)@.files.insert(views(path@), content@),
            final(self).dir_list() == old(self).dir_list(),
    {
        let ghost p = views(path@);
        let ghost c = content@;
        match self.find_file(&path) {
            Some(i) => {
                proof {
                    lemma_file_map_update(self.file_list(), i as int, c);
                }
                self.files[i] = FileEntry { path, content };
                assert(self.file_list() =~= old(self).file_list().update(i as int, (p, c)));
            },
            None => {
                self.files.push(FileEntry { path, content });
                assert(self.file_list() =~= old(self).file_list().push((p, c)));
                assert(self.file_list().drop_last() =~= old(self).file_list());
            },
        }
    }

    /// Write a file.
    pub fn write_file(&mut self, path: &str, content: String)
        ensures
            final(self)@.dirs == old(self)@.dirs,
            final(self)@.files == old(self)@.files.insert(path_of(path@), content@),
    {
        self.write_file_at(parse_path(path), content);
    }
}

impl Default for FakeFilesystem {
    fn default() -> (r: Self)
        ensures
            r@.dirs == Self::seed_dirs(),
            r@.files.dom() == Self::seed_files(),
    {
        Self::new()
    }
}

/// The root of a freshly built filesystem lists at least `root`, `etc` and
/// `tmp`; `list_dir` returns its names sorted and without duplicates.
pub proof fn lemma_fresh_root_listing(v: FsView)
    requires
        v.dirs == FakeFilesystem::seed_dirs(),
        v.files.dom() == FakeFilesystem::seed_files(),
    ensures
        child_names(v, seq![]).contains("root"@),
        child_names(v, seq![]).contains("etc"@),
        child_names(v, seq![]).contains("tmp"@),
{
    let q = Seq::<Seq<char>>::empty();
    let r = seq!["root"@];
    let e = seq!["etc"@];
    let t = seq!["tmp"@];
    assert(r.subrange(0, 0) =~= q);
    assert(e.subrange(0, 0) =~= q);
    assert(t.subrange(0, 0) =~= q);
    assert(v.dirs.contains(r) && is_child(r, q) && r.last() == "root"@);
    assert(v.dirs.contains(e) && is_child(e, q) && e.last() == "etc"@);
    assert(v.dirs.contains(t) && is_child(t, q) && t.last() == "tmp"@);
}

} // verus!
