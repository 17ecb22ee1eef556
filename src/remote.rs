use vstd::prelude::*;
use crate::inventory::{Auth, Info, ClientInfo, copy_opt};
use crate::text::{strings_view, string_from_chars};

verus! {

/// One operation run on every resolved host.
#[derive(Clone, Debug)]
pub enum SshOps {
    /// Run a command; its words are joined with spaces.
    Exec { statement: Vec<String> },
    /// Download one remote file into a local directory.
    Get { src_file_path: String, dest_dir: String },
    /// Upload one local file to a remote directory or path.
    Put { src_file_path: String, dest_dir: String },
    /// Print a sample inventory.
    Print,
}

/// The credential handed to the in-process ssh transport.
#[derive(Clone, Debug, PartialEq, Eq)]
pub enum Credential {
    Password(String),
    PrivateKey { key_data: String, key_pass: Option<String> },
    PrivateKeyFile { key_file_path: String, key_pass: Option<String> },
}

/// The transport that shells out to the platform's `ssh` and `scp`.
#[derive(Clone, Copy, Debug)]
pub struct LocalSsh {}

impl LocalSsh {
    pub fn new() -> (r: Self) {
        LocalSsh {}
    }
}

/// `name` adjoined to the directory `dir` with a `/`, as a path push does:
/// an absolute `name` replaces `dir`; no separator after an empty directory
/// or one that already ends with one.
pub open spec fn join_path(dir: Seq<char>, name: Seq<char>) -> Seq<char> {
    if name.len() > 0 && name[0] == '/' {
        name
    } else if dir.len() == 0 {
        name
    } else if dir.last() == '/' {
        dir + name
    } else {
        dir + seq!['/'] + name
    }
}

/// The key file used when a host names none: `.ssh/id_ed25519` in the home directory.
pub open spec fn default_key_path(home: Seq<char>) -> Seq<char> {
    join_path(join_path(home, ".ssh"@), "id_ed25519"@)
}

/// `name` adjoined to the directory `dir`.
pub fn join(dir: &str, name: &str) -> (r: String)
    ensures
        r@ == join_path(dir@, name@),
{
    if !name.is_empty() && name.get_char(0) == '/' {
        return name.to_owned();
    }
    let mut r = dir.to_owned();
    if !dir.is_empty() {
        let n = dir.unicode_len();
        if dir.get_char(n - 1) != '/' {
            let sep = "/";
            proof {
                reveal_strlit("/");
            }
            r.append(sep);
        }
    }
    r.append(name);
    r
}

/// `c` is the credential for `auth`: none for the local client, else the
/// same secret, with an unnamed key file taken from `home`.
pub open spec fn credential_for(c: Option<Credential>, auth: Auth, home: Seq<char>) -> bool {
    match auth {
        Auth::LocalSsh => c is None,
        Auth::Password(p) => c == Some(Credential::Password(p)),
        Auth::PrivateKey { key_data, key_pass } => c == Some(Credential::PrivateKey { key_data, key_pass }),
        Auth::PrivateKeyFile { key_file_path, key_pass } => c matches Some(Credential::PrivateKeyFile { key_file_path: path, key_pass: pass })
            && pass == key_pass
            && path@ == match key_file_path { Some(p) => p@, None => default_key_path(home) },
    }
}

impl Info {
    /// How the in-process transport logs in to this host; `None` when the
    /// host is reached through the local ssh client. A key file left unnamed
    /// is `.ssh/id_ed25519` under `home`.
    pub fn auth_method(&self, home: &str) -> (r: Option<Credential>)
        ensures
            credential_for(r, self.auth_view(), home@),
    {
        match self.auth() {
            Auth::Password(p) => Some(Credential::Password(p.clone())),
            Auth::PrivateKey { key_data, key_pass } => Some(Credential::PrivateKey {
                key_data: key_data.clone(),
                key_pass: copy_opt(key_pass),
            }),
            Auth::PrivateKeyFile { key_file_path, key_pass } => {
                let path = match key_file_path {
                    Some(p) => p.clone(),
                    None => {
                        let dir = join(home, ".ssh");
                        join(dir.as_str(), "id_ed25519")
                    },
                };
                Some(Credential::PrivateKeyFile { key_file_path: path, key_pass: copy_opt(key_pass) })
            },
            Auth::LocalSsh => None,
        }
    }

    /// `user@ip`, the login the local client is given.
    pub fn login(&self) -> (r: String)
        ensures
            r@ == self.username_view() + seq!['@'] + self.ip_view(),
    {
        let mut r = self.username().to_owned();
        let at = "@";
        proof {
            reveal_strlit("@");
        }
        r.append(at);
        r.append(self.ip());
        r
    }
}

/// The words of a command, each preceded by a space.
pub open spec fn command_text(words: Seq<Seq<char>>) -> Seq<char>
    decreases words.len(),
{
    if words.len() == 0 {
        Seq::empty()
    } else {
        command_text(words.drop_last()) + seq![' '] + words.last()
    }
}

/// The command line the in-process transport runs for `statement`.
pub fn exec_command(statement: &Vec<String>) -> (r: String)
    ensures
        r@ == command_text(strings_view(statement@)),
{
    let ghost words = strings_view(statement@);
    let mut r = String::new();
    let mut i: usize = 0;
    let space = " ";
    proof {
        reveal_strlit(" ");
    }
    while i < statement.len()
        invariant
            i <= statement@.len(),
            words == strings_view(statement@),
            space@ == seq![' '],
            r@ == command_text(words.take(i as int)),
        decreases statement.len() - i,
    {
        r.append(space);
        r.append(statement[i].as_str());
        assert(words.take(i + 1).drop_last() =~= words.take(i as int));
        i = i + 1;
    }
    assert(words.take(i as int) =~= words);
    r
}

/// What a remote command printed: its standard output, or its standard
/// error when the output is empty.
pub fn pick_output(stdout: String, stderr: String) -> (r: String)
    ensures
        r@ == if stdout@.len() == 0 { stderr@ } else { stdout@ },
{
    if stdout.as_str().is_empty() { stderr } else { stdout }
}

/// What the local client printed: its standard output, or its standard
/// error when the output is empty (the same rule as the in-process transport).
pub fn pick_local_output(stdout: Vec<u8>, stderr: Vec<u8>) -> (r: Vec<u8>)
    ensures
        r == if stdout@.len() == 0 { stderr } else { stdout },
{
    if stdout.len() == 0 { stderr } else { stdout }
}

/// `s` with every backslash turned into `/` (`to_slash`) or left out.
pub open spec fn map_backslashes(s: Seq<char>, to_slash: bool) -> Seq<char>
    decreases s.len(),
{
    if s.len() == 0 {
        Seq::empty()
    } else {
        let rest = map_backslashes(s.drop_last(), to_slash);
        if s.last() == '\\' {
            if to_slash { rest.push('/') } else { rest }
        } else {
            rest.push(s.last())
        }
    }
}

/// `s` with its backslashes turned into `/` or dropped.
pub fn fix_backslashes(s: &str, to_slash: bool) -> (r: String)
    ensures
        r@ == map_backslashes(s@, to_slash),
{
    let mut cs: Vec<char> = Vec::new();
    let ghost mut read: Seq<char> = Seq::empty();
    for c in it: s.chars()
        invariant
            read == it.seq().take(it.index() as int),
            cs@ == map_backslashes(read, to_slash),
    {
        let ghost before = read;
        proof {
            read = read.push(c);
            assert(read.drop_last() =~= before);
        }
        if c == '\\' {
            if to_slash {
                cs.push('/');
            }
        } else {
            cs.push(c);
        }
    }
    assert(read =~= s@);
    string_from_chars(&cs)
}

/// The last component of a path, as `Path::file_name` gives it.
pub uninterp spec fn path_file_name(p: Seq<char>) -> Option<Seq<char>>;

/// Whether a path's file name has an extension, as `Path::extension` tells.
pub uninterp spec fn path_has_extension(p: Seq<char>) -> bool;

/// Relies on `std::path::Path::file_name`: the final component, `None` when
/// the path ends in `..` or is a root.
#[verifier::external_body]
fn file_name_of(p: &str) -> (r: Option<String>)
    ensures
        r matches Some(n) ==> path_file_name(p@) == Some(n@),
        r is None ==> path_file_name(p@) is None,
        p@.len() == 0 ==> r is None,
{
    match std::path::Path::new(p).file_name() {
        Some(n) => Some(n.to_string_lossy().into_owned()),
        None => None,
    }
}

/// Relies on `std::path::Path::extension`: whether the file name has one.
#[verifier::external_body]
fn has_extension(p: &str) -> (r: bool)
    ensures
        r == path_has_extension(p@),
{
    std::path::Path::new(p).extension().is_some()
}

/// Where an upload lands: `dest` itself when it names a file (has an
/// extension, backslashes dropped), else the source's file name inside `dest`
/// (backslashes turned into `/`); `None` when the source has no file name.
pub open spec fn upload_target_spec(dest: Seq<char>, dest_has_extension: bool, src_name: Option<Seq<char>>) -> Option<Seq<char>> {
    if dest_has_extension {
        Some(map_backslashes(dest, false))
    } else {
        match src_name {
            Some(n) => Some(map_backslashes(join_path(dest, n), true)),
            None => None,
        }
    }
}

/// Where an upload lands, from what the path functions told of `dest` and of the source.
pub fn upload_destination(dest_dir: &str, dest_has_extension: bool, src_name: Option<&str>) -> (r: Option<String>)
    ensures
        r matches Some(s) ==> upload_target_spec(dest_dir@, dest_has_extension, match src_name { Some(n) => Some(n@), None => None }) == Some(s@),
        r is None ==> upload_target_spec(dest_dir@, dest_has_extension, match src_name { Some(n) => Some(n@), None => None }) is None,
{
    if dest_has_extension {
        Some(fix_backslashes(dest_dir, false))
    } else {
        match src_name {
            Some(n) => {
                let joined = join(dest_dir, n);
                Some(fix_backslashes(joined.as_str(), true))
            },
            None => None,
        }
    }
}

/// Where uploading `src_file_path` to `dest_dir` lands.
pub fn upload_target(src_file_path: &str, dest_dir: &str) -> (r: Option<String>)
    ensures
        r matches Some(s) ==> upload_target_spec(dest_dir@, path_has_extension(dest_dir@), path_file_name(src_file_path@)) == Some(s@),
        r is None ==> upload_target_spec(dest_dir@, path_has_extension(dest_dir@), path_file_name(src_file_path@)) is None,
{
    let ext = has_extension(dest_dir);
    let name = file_name_of(src_file_path);
    match name {
        Some(n) => upload_destination(dest_dir, ext, Some(n.as_str())),
        None => upload_destination(dest_dir, ext, None),
    }
}

/// A remote destination as the local client is given it: kept when its text
/// starts with `/` or `~`, else taken under `~/`.
pub open spec fn home_relative(p: Seq<char>) -> Seq<char> {
    if p.len() > 0 && (p[0] == '/' || p[0] == '~') { p } else { "~/"@ + p }
}

/// A remote path as the local client is given it.
pub fn remote_path(p: &str) -> (r: String)
    ensures
        r@ == home_relative(p@),
{
    if !p.is_empty() && (p.get_char(0) == '/' || p.get_char(0) == '~') {
        p.to_owned()
    } else {
        let mut r = "~/".to_owned();
        r.append(p);
        r
    }
}

/// Whether the path's first component is the root or exactly `~`.
pub open spec fn starts_at_root_or_home(p: Seq<char>) -> bool {
    p.len() > 0 && (p[0] == '/' || (p[0] == '~' && (p.len() == 1 || p[1] == '/')))
}

/// A remote source as the local client is given it: kept when it starts at
/// the root or its first component is `~`, else taken under `~/`.
pub open spec fn home_relative_source(p: Seq<char>) -> Seq<char> {
    if starts_at_root_or_home(p) { p } else { "~/"@ + p }
}

/// A remote source path as the local client is given it, by whole path components.
pub fn remote_source_path(p: &str) -> (r: String)
    ensures
        r@ == home_relative_source(p@),
{
    let n = p.unicode_len();
    let keep = n > 0 && (p.get_char(0) == '/' || (p.get_char(0) == '~' && (n == 1 || p.get_char(1) == '/')));
    if keep {
        p.to_owned()
    } else {
        let mut r = "~/".to_owned();
        r.append(p);
        r
    }
}

/// The local name of a downloaded file: `{hostname}_{ip}_{file name}`
/// inside `dest_dir`.
pub open spec fn download_target_spec(identity: Seq<char>, dest_dir: Seq<char>, name: Seq<char>) -> Seq<char> {
    join_path(dest_dir, identity + seq!['_'] + name)
}

/// Where a file downloaded from `info` lands, given the file name taken
/// from the source (or from `dest_dir` when that is not a directory).
pub fn download_destination(info: &Info, dest_dir: &str, name: &str) -> (r: String)
    ensures
        r@ == download_target_spec(info.identity(), dest_dir@, name@),
{
    let mut file = info.hostname_ip();
    let sep = "_";
    proof {
        reveal_strlit("_");
    }
    file.append(sep);
    file.append(name);
    join(dest_dir, file.as_str())
}

/// Where downloading `src_file_path` from `info` into `dest_dir` lands; the
/// file name is the source's when `dest_dir` is a directory, else
/// `dest_dir`'s own. `None` when that path has no file name.
pub fn download_target(info: &Info, src_file_path: &str, dest_dir: &str, dest_is_dir: bool) -> (r: Option<String>)
    ensures
        ({
            let named = if dest_is_dir { src_file_path@ } else { dest_dir@ };
            &&& path_file_name(named) is None ==> r is None
            &&& path_file_name(named) matches Some(n) ==> (r matches Some(s)
                && s@ == download_target_spec(info.identity(), dest_dir@, n))
        }),
{
    let named = if dest_is_dir { src_file_path } else { dest_dir };
    match file_name_of(named) {
        Some(n) => Some(download_destination(info, dest_dir, n.as_str())),
        None => None,
    }
}


/// One host's share of an operation: the host, and the credential of the
/// in-process transport (`None`: the local ssh client is used).
#[derive(Clone, Debug)]
pub struct HostTask {
    pub info: Info,
    pub credential: Option<Credential>,
}

/// One task per resolved host, in order, each with its transport chosen
/// from the host's auth method.
pub fn plan_tasks(client_info: &ClientInfo, home: &str) -> (r: Vec<HostTask>)
    ensures
        r@.len() == client_info.info_view().len(),
        forall|i: int| 0 <= i < r@.len() ==> {
            &&& (#[trigger] r@[i]).info == client_info.info_view()[i]
            &&& credential_for(r@[i].credential, client_info.info_view()[i].auth_view(), home@)
        },
{
    let infos = client_info.clone_info();
    let mut r: Vec<HostTask> = Vec::new();
    let mut i: usize = 0;
    while i < infos.len()
        invariant
            i <= infos@.len(),
            infos@ == client_info.info_view(),
            r@.len() == i,
            forall|k: int| 0 <= k < i ==> {
                &&& (#[trigger] r@[k]).info == infos@[k]
                &&& credential_for(r@[k].credential, infos@[k].auth_view(), home@)
            },
        decreases infos.len() - i,
    {
        let credential = infos[i].auth_method(home);
        let info = infos[i].clone_exact();
        r.push(HostTask { info, credential });
        i = i + 1;
    }
    r
}

} // verus!
