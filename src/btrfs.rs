use vstd::prelude::*;
use crate::backend::{query_argv, BackendCommand, BackendQuery, CommandOutput, ErrorKind, StorageError};
use crate::text::{
    before, find, find_from, find_in_window, is_line, line_end, occurs_at, occurs_in_window, tail_token,
    tail_token_start, trim, trim_window, parse_u64_spec, parse_u64_window,
};
use crate::types::{other_slot, slot_name, unresolved_path, Subvolume, TargetRoots};

verus! {

/// The subvolume path embedded in a mount source such as `/dev/sda2[/@active_a]`:
/// what stands between the first `[` and the first `]` after it, without one leading `/`.
pub open spec fn embedded_path(src: Seq<char>) -> Option<Seq<char>> {
    match find(src, "["@) {
        None => None,
        Some(i) => {
            let rest = src.skip(i + 1);
            match find(rest, "]"@) {
                None => None,
                Some(j) => {
                    let p = rest.take(j);
                    Some(
                        if p.len() > 0 && p[0] == '/' {
                            p.drop_first()
                        } else {
                            p
                        },
                    )
                },
            }
        },
    }
}

/// The block device of a mount source: what stands before its first `[`, trimmed.
pub open spec fn device_of(src: Seq<char>) -> Seq<char> {
    trim(before(trim(src), "["@))
}

/// Line `show[a..b]` of a subvolume's metadata holds its UUID.
pub open spec fn uuid_line(show: Seq<char>, a: int, b: int) -> bool {
    is_line(show, a, b) && occurs_at(trim(show.subrange(a, b)), "UUID:"@, 0)
}

/// Line `show[a..b]` is the first one that holds the UUID.
pub open spec fn first_uuid_line(show: Seq<char>, a: int, b: int) -> bool {
    uuid_line(show, a, b) && forall|a2: int, b2: int| uuid_line(show, a2, b2) ==> a <= a2
}

/// The metadata names a UUID.
pub open spec fn has_uuid(show: Seq<char>) -> bool {
    exists|a: int, b: int| uuid_line(show, a, b)
}

/// The UUID named by the metadata: the last word of its first `UUID:` line.
pub open spec fn uuid_of(show: Seq<char>) -> Seq<char> {
    let (a, b) = choose|a: int, b: int| first_uuid_line(show, a, b);
    tail_token(trim(show.subrange(a, b)))
}

/// The path field of one subvolume listing line: what follows its first ` path `,
/// up to the next ` path ` if any, trimmed.
pub open spec fn path_field(line: Seq<char>) -> Option<Seq<char>> {
    match find(line, " path "@) {
        None => None,
        Some(p) => Some(trim(before(line.skip(p + 6), " path "@))),
    }
}

/// Some line of the subvolume listing reports exactly `name` as its path.
pub open spec fn listed(listing: Seq<char>, name: Seq<char>) -> bool {
    exists|a: int, b: int| is_line(listing, a, b) && path_field(listing.subrange(a, b)) == Some(name)
}

/// Two lines that start in the same stretch without line feeds are the same line.
proof fn lemma_line_at(s: Seq<char>, pos: int, e: int, a: int, b: int)
    requires
        0 <= pos <= e <= s.len(),
        e == s.len() || s[e] == '\n',
        forall|k: int| pos <= k < e ==> s[k] != '\n',
        is_line(s, a, b),
        pos <= a <= e,
        pos == 0 || s[pos - 1] == '\n',
    ensures
        a == pos,
        b == e,
{
    if a > pos {
        assert(s[a - 1] == '\n');
    }
    if b < e {
        assert(s[b] == '\n');
    }
    if b > e {
        assert(s[e] != '\n');
    }
}

/// Whether `s[x..y]` is exactly `t`.
fn window_equals(s: &Vec<char>, x: usize, y: usize, t: &Vec<char>) -> (r: bool)
    requires
        x <= y <= s.len(),
    ensures
        r == (s@.subrange(x as int, y as int) == t@),
{
    if y - x != t.len() {
        return false;
    }
    let mut k: usize = 0;
    while k < t.len()
        invariant
            k <= t.len(),
            y - x == t.len(),
            x <= y <= s.len(),
            forall|j: int| 0 <= j < k ==> s@[x + j] == t@[j],
        decreases t.len() - k,
    {
        if s[x + k] != t[k] {
            assert(s@.subrange(x as int, y as int)[k as int] != t@[k as int]);
            return false;
        }
        k = k + 1;
    }
    assert(s@.subrange(x as int, y as int) =~= t@);
    true
}

/// The bounds of the path field of line `s[a..b]`, if it has one.
fn path_field_window(s: &Vec<char>, a: usize, b: usize, sep: &Vec<char>) -> (r: Option<
    (usize, usize),
>)
    requires
        a <= b <= s.len(),
        sep@ == " path "@,
    ensures
        match r {
            Some((x, y)) => x <= y <= s.len() && path_field(s@.subrange(a as int, b as int))
                == Some(s@.subrange(x as int, y as int)),
            None => path_field(s@.subrange(a as int, b as int)) is None,
        },
{
    proof {
        reveal_strlit(" path ");
    }
    let ghost line = s@.subrange(a as int, b as int);
    match find_in_window(s, a, b, sep) {
        None => None,
        Some(p) => {
            let start = a + p + sep.len();
            assert(line.skip(p + 6) =~= s@.subrange(start as int, b as int));
            let end = match find_in_window(s, start, b, sep) {
                None => b,
                Some(q) => start + q,
            };
            assert(before(line.skip(p + 6), " path "@) =~= s@.subrange(start as int, end as int));
            let (x, y) = trim_window(s, start, end);
            Some((x, y))
        },
    }
}

/// Whether some line of `listing` reports exactly `name` as its path.
pub fn listing_has(listing: &str, name: &str) -> (r: bool)
    ensures
        r == listed(listing@, name@),
{
    let s = crate::text::chars_of(listing);
    let t = crate::text::chars_of(name);
    let sep = crate::text::chars_of(" path ");
    let mut pos: usize = 0;
    loop
        invariant
            pos <= s.len(),
            pos == 0 || s@[pos - 1] == '\n',
            s@ == listing@,
            t@ == name@,
            sep@ == " path "@,
            forall|a: int, b: int|
                is_line(s@, a, b) && a < pos ==> path_field(s@.subrange(a, b)) != Some(name@),
        decreases s.len() - pos,
    {
        let e = line_end(&s, pos);
        assert(is_line(s@, pos as int, e as int));
        let hit = match path_field_window(&s, pos, e, &sep) {
            None => false,
            Some((x, y)) => window_equals(&s, x, y, &t),
        };
        if hit {
            return true;
        }
        assert forall|a: int, b: int|
            is_line(s@, a, b) && a < e + 1 implies path_field(s@.subrange(a, b)) != Some(
            name@,
        ) by {
            if a >= pos {
                lemma_line_at(s@, pos as int, e as int, a, b);
            }
        }
        if e == s.len() {
            return false;
        }
        pos = e + 1;
    }
}

/// The UUID that subvolume metadata names, if it has a `UUID:` line.
pub fn uuid_in(show: &str) -> (r: Option<String>)
    ensures
        r is Some <==> has_uuid(show@),
        r matches Some(u) ==> u@ == uuid_of(show@),
{
    let s = crate::text::chars_of(show);
    let key = crate::text::chars_of("UUID:");
    let mut pos: usize = 0;
    loop
        invariant
            pos <= s.len(),
            pos == 0 || s@[pos - 1] == '\n',
            s@ == show@,
            key@ == "UUID:"@,
            forall|a: int, b: int| uuid_line(s@, a, b) ==> a >= pos,
        decreases s.len() - pos,
    {
        let e = line_end(&s, pos);
        assert(is_line(s@, pos as int, e as int));
        let (x, y) = trim_window(&s, pos, e);
        if occurs_in_window(&s, x, y, &key, 0) {
            let k = tail_token_start(&s, x, y);
            proof {
                assert(s@.subrange(x as int, y as int) =~= s@.subrange(x as int, y as int).subrange(0, y - x));
                assert(first_uuid_line(s@, pos as int, e as int));
                let (a, b) = choose|a: int, b: int| first_uuid_line(s@, a, b);
                assert(first_uuid_line(s@, a, b));
                lemma_line_at(s@, pos as int, e as int, a, b);
            }
            let u = show.substring_char(k, y);
            return Some(u.to_owned());
        }
        assert forall|a: int, b: int| uuid_line(s@, a, b) implies a >= e + 1 by {
            if a <= e {
                lemma_line_at(s@, pos as int, e as int, a, b);
            }
        }
        if e == s.len() {
            return None;
        }
        pos = e + 1;
    }
}

/// The subvolume path embedded in a mount source, if it embeds one.
pub fn embedded_path_in(src: &str) -> (r: Option<String>)
    ensures
        match r {
            Some(p) => embedded_path(src@) == Some(p@),
            None => embedded_path(src@) is None,
        },
{
    let s = crate::text::chars_of(src);
    let open = crate::text::chars_of("[");
    let close = crate::text::chars_of("]");
    assert(s@.subrange(0, s.len() as int) =~= s@);
    match find_in_window(&s, 0, s.len(), &open) {
        None => None,
        Some(i) => {
            proof {
                reveal_strlit("[");
            }
            let lo = i + 1;
            assert(src@.skip(i + 1) =~= s@.subrange(lo as int, s.len() as int));
            match find_in_window(&s, lo, s.len(), &close) {
                None => None,
                Some(j) => {
                    proof {
                        reveal_strlit("]");
                    }
                    let hi = lo + j;
                    assert(src@.skip(i + 1).take(j as int) =~= s@.subrange(lo as int, hi as int));
                    let start = if lo < hi && s[lo] == '/' {
                        lo + 1
                    } else {
                        lo
                    };
                    if lo < hi {
                        assert(s@.subrange(lo as int, hi as int).drop_first() =~= s@.subrange(
                            lo + 1,
                            hi as int,
                        ));
                    }
                    let p = src.substring_char(start, hi);
                    Some(p.to_owned())
                },
            }
        },
    }
}

/// The block device of a mount source: what stands before its first `[`, trimmed.
pub fn device_in(src: &str) -> (r: String)
    ensures
        r@ == device_of(src@),
{
    let s = crate::text::chars_of(src);
    let open = crate::text::chars_of("[");
    let (a, b) = trim_window(&s, 0, s.len());
    assert(s@.subrange(0, s.len() as int) =~= s@);
    let end = match find_in_window(&s, a, b, &open) {
        None => b,
        Some(i) => a + i,
    };
    assert(before(trim(src@), "["@) =~= s@.subrange(a as int, end as int));
    let (x, y) = trim_window(&s, a, end);
    let d = src.substring_char(x, y);
    d.to_owned()
}

/// The path of the root subvolume that a mount source reports: the embedded path,
/// or the unresolved sentinel where it embeds none.
pub open spec fn current_path(src: Seq<char>) -> Seq<char> {
    match embedded_path(src) {
        Some(p) => p,
        None => unresolved_path(),
    }
}

/// The slot to deploy to next, given the path of the current root: the other slot
/// where the path is a canonical slot name, and `A` otherwise.
pub open spec fn next_target_for(path: Seq<char>) -> TargetRoots {
    if path == slot_name(TargetRoots::A) {
        TargetRoots::B
    } else {
        TargetRoots::A
    }
}

/// The first failure among the three introspection results that describe the root:
/// its kind, the query it came from, and the text reported with it.
pub open spec fn root_failure(source: CommandOutput, rootid: CommandOutput, show: CommandOutput) -> Option<
    (ErrorKind, BackendQuery, Seq<char>),
> {
    if !source.success {
        Some((ErrorKind::BackendQueryFailed, BackendQuery::RootSource, source.stderr@))
    } else if !rootid.success {
        Some((ErrorKind::BackendQueryFailed, BackendQuery::RootId, rootid.stderr@))
    } else if parse_u64_spec(trim(rootid.stdout@)) is None {
        Some((ErrorKind::ParseFailed, BackendQuery::RootId, rootid.stdout@))
    } else if !show.success {
        Some((ErrorKind::BackendQueryFailed, BackendQuery::SubvolumeShow, show.stderr@))
    } else if !has_uuid(show.stdout@) {
        Some((ErrorKind::ParseFailed, BackendQuery::SubvolumeShow, show.stdout@))
    } else {
        None
    }
}

/// `e` reports a failure of kind `kind` of the command line `argv`, with `detail`.
pub open spec fn reports(e: StorageError, kind: ErrorKind, argv: Seq<Seq<char>>, detail: Seq<char>) -> bool {
    e.kind == kind && e.command.argv() == argv && e.detail@ == detail
}

/// The command line that creates the subvolume `name`.
pub open spec fn create_argv(name: Seq<char>) -> Seq<Seq<char>> {
    seq!["btrfs"@, "subvolume"@, "create"@, name]
}

/// The command line that deletes the subvolume `name`.
pub open spec fn delete_argv(name: Seq<char>) -> Seq<Seq<char>> {
    seq!["btrfs"@, "subvolume"@, "delete"@, name]
}

/// The command line that mounts subvolume `name` of `device` at `target`.
pub open spec fn mount_argv(name: Seq<char>, device: Seq<char>, target: Seq<char>) -> Seq<Seq<char>> {
    seq!["mount"@, "-o"@, "subvol="@ + name, device, target]
}

/// What a request to create `name` comes to, given the subvolume listing:
/// `Ok(true)` where a create command is to run, `Ok(false)` where `name` already exists.
pub open spec fn create_outcome(listing: CommandOutput, name: Seq<char>) -> Result<bool, ErrorKind> {
    if !listing.success {
        Err(ErrorKind::BackendQueryFailed)
    } else {
        Ok(!listed(listing.stdout@, name))
    }
}

/// What a request to delete `name` comes to, given the path of the current root and
/// the subvolume listing: `Ok(false)` where `name` is not listed and there is nothing
/// to delete, a refusal where `name` is the current root, and `Ok(true)` where a
/// delete command is to run.
pub open spec fn delete_outcome(root_path: Seq<char>, listing: CommandOutput, name: Seq<char>) -> Result<
    bool,
    ErrorKind,
> {
    if !listing.success {
        Err(ErrorKind::BackendQueryFailed)
    } else if !listed(listing.stdout@, name) {
        Ok(false)
    } else if name == root_path {
        Err(ErrorKind::RefusedActiveRootDeletion)
    } else {
        Ok(true)
    }
}

/// A failure of kind `kind` of the query `q`, reporting `detail`.
fn query_error(kind: ErrorKind, q: BackendQuery, detail: &String) -> (e: StorageError)
    ensures
        reports(e, kind, query_argv(q), detail@),
{
    StorageError { kind, command: q.command(), detail: detail.clone() }
}

/// The command line that runs `btrfs subvolume <verb> <name>`.
fn subvolume_command(verb: &str, name: &str) -> (r: BackendCommand)
    ensures
        r.argv() == seq!["btrfs"@, "subvolume"@, verb@, name@],
{
    let mut c = BackendCommand::new("btrfs");
    c.arg("subvolume");
    c.arg(verb);
    c.arg(name);
    assert(c.argv() =~= seq!["btrfs"@, "subvolume"@, verb@, name@]);
    c
}

/// The btrfs adapter of the subvolume manager. It keeps no state: every answer is
/// derived from the backend output it is handed.
pub struct BtrfsDriver;

impl BtrfsDriver {
    /// A driver.
    pub fn new() -> (r: Self) {
        BtrfsDriver
    }

    /// The subvolume mounted at `/`, from the output of the root mount's source query,
    /// the root id query and the subvolume metadata query.
    pub fn get_current_root(
        &self,
        source: &CommandOutput,
        rootid: &CommandOutput,
        show: &CommandOutput,
    ) -> (r: Result<Subvolume, StorageError>)
        ensures
            r is Ok <==> root_failure(*source, *rootid, *show) is None,
            r matches Ok(sv) ==> {
                &&& parse_u64_spec(trim(rootid.stdout@)) == Some(sv.id)
                &&& sv.path@ == current_path(source.stdout@)
                &&& sv.uuid@ == uuid_of(show.stdout@)
                &&& sv.parent_uuid is None
            },
            r matches Err(e) ==> root_failure(*source, *rootid, *show) matches Some((k, q, d))
                && reports(e, k, query_argv(q), d),
    {
        if !source.success {
            return Err(query_error(ErrorKind::BackendQueryFailed, BackendQuery::RootSource, &source.stderr));
        }
        if !rootid.success {
            return Err(query_error(ErrorKind::BackendQueryFailed, BackendQuery::RootId, &rootid.stderr));
        }
        let id_chars = crate::text::chars_of(rootid.stdout.as_str());
        let (a, b) = trim_window(&id_chars, 0, id_chars.len());
        assert(id_chars@.subrange(0, id_chars.len() as int) =~= rootid.stdout@);
        let id = match parse_u64_window(&id_chars, a, b) {
            Some(n) => n,
            None => {
                return Err(query_error(ErrorKind::ParseFailed, BackendQuery::RootId, &rootid.stdout));
            },
        };
        if !show.success {
            return Err(query_error(ErrorKind::BackendQueryFailed, BackendQuery::SubvolumeShow, &show.stderr));
        }
        let uuid = match uuid_in(show.stdout.as_str()) {
            Some(u) => u,
            None => {
                return Err(query_error(ErrorKind::ParseFailed, BackendQuery::SubvolumeShow, &show.stdout));
            },
        };
        let path = match embedded_path_in(source.stdout.as_str()) {
            Some(p) => p,
            None => String::from_str("unknown"),
        };
        Ok(Subvolume { id, path, uuid, parent_uuid: None })
    }

    /// The slot to deploy to next: the one that is not mounted at `/`, or `A` where the
    /// current root is not a canonical slot.
    pub fn get_next_target(
        &self,
        source: &CommandOutput,
        rootid: &CommandOutput,
        show: &CommandOutput,
    ) -> (r: Result<TargetRoots, StorageError>)
        ensures
            r is Ok <==> root_failure(*source, *rootid, *show) is None,
            r matches Ok(t) ==> t == next_target_for(current_path(source.stdout@)),
            r matches Err(e) ==> root_failure(*source, *rootid, *show) matches Some((k, q, d))
                && reports(e, k, query_argv(q), d),
    {
        let current = self.get_current_root(source, rootid, show)?;
        Ok(next_target_after(current.path.as_str()))
    }

    /// Whether the subvolume listing reports exactly `name`.
    pub fn subvolume_exists(&self, listing: &CommandOutput, name: &str) -> (r: Result<bool, StorageError>)
        ensures
            r is Ok <==> listing.success,
            r matches Ok(b) ==> b == listed(listing.stdout@, name@),
            r matches Err(e) ==> reports(
                e,
                ErrorKind::BackendQueryFailed,
                query_argv(BackendQuery::SubvolumeList),
                listing.stderr@,
            ),
    {
        if !listing.success {
            return Err(query_error(ErrorKind::BackendQueryFailed, BackendQuery::SubvolumeList, &listing.stderr));
        }
        Ok(listing_has(listing.stdout.as_str(), name))
    }

    /// The command that deletes `name`, if there is anything to delete. Refuses the
    /// subvolume mounted at `/`, whose path `current` reports, before any command.
    pub fn delete_subvolume(&self, current: &Subvolume, listing: &CommandOutput, name: &str) -> (r: Result<
        Option<BackendCommand>,
        StorageError,
    >)
        ensures
            match r {
                Ok(None) => delete_outcome(current.path@, *listing, name@) == Ok::<bool, ErrorKind>(false),
                Ok(Some(c)) => delete_outcome(current.path@, *listing, name@) == Ok::<bool, ErrorKind>(true)
                    && c.argv() == delete_argv(name@),
                Err(e) => delete_outcome(current.path@, *listing, name@) == Err::<bool, ErrorKind>(e.kind)
                    && (e.kind == ErrorKind::RefusedActiveRootDeletion ==> reports(
                    e,
                    e.kind,
                    delete_argv(name@),
                    name@,
                )) && (e.kind == ErrorKind::BackendQueryFailed ==> reports(
                    e,
                    e.kind,
                    query_argv(BackendQuery::SubvolumeList),
                    listing.stderr@,
                )),
            },
    {
        if !self.subvolume_exists(listing, name)? {
            return Ok(None);
        }
        if str_equal(name, current.path.as_str()) {
            return Err(StorageError {
                kind: ErrorKind::RefusedActiveRootDeletion,
                command: subvolume_command("delete", name),
                detail: String::from_str(name),
            });
        }
        Ok(Some(subvolume_command("delete", name)))
    }

    /// The command that creates `name`, unless it already exists.
    pub fn create_subvolume(&self, listing: &CommandOutput, name: &str) -> (r: Result<
        Option<BackendCommand>,
        StorageError,
    >)
        ensures
            match r {
                Ok(None) => create_outcome(*listing, name@) == Ok::<bool, ErrorKind>(false),
                Ok(Some(c)) => create_outcome(*listing, name@) == Ok::<bool, ErrorKind>(true) && c.argv() == create_argv(name@),
                Err(e) => create_outcome(*listing, name@) == Err::<bool, ErrorKind>(e.kind) && reports(
                    e,
                    e.kind,
                    query_argv(BackendQuery::SubvolumeList),
                    listing.stderr@,
                ),
            },
    {
        if self.subvolume_exists(listing, name)? {
            return Ok(None);
        }
        Ok(Some(subvolume_command("create", name)))
    }

    /// The command that mounts subvolume `name` at `target`, on the block device that
    /// backs the root mount, taken from the root mount's source query. Never mounts
    /// anything at `/`, so that no second root is mounted over the running one.
    pub fn mount_subvolume(&self, source: &CommandOutput, name: &str, target: &str) -> (r: Result<
        BackendCommand,
        StorageError,
    >)
        ensures
            r is Ok <==> source.success && device_of(source.stdout@).len() > 0 && target@ != "/"@,
            r matches Ok(c) ==> c.argv() == mount_argv(name@, device_of(source.stdout@), target@),
            r matches Err(e) ==> if !source.success {
                reports(
                    e,
                    ErrorKind::BackendQueryFailed,
                    query_argv(BackendQuery::RootSource),
                    source.stderr@,
                )
            } else if device_of(source.stdout@).len() == 0 {
                reports(
                    e,
                    ErrorKind::DeviceResolutionFailed,
                    query_argv(BackendQuery::RootSource),
                    source.stdout@,
                )
            } else {
                reports(
                    e,
                    ErrorKind::MountFailed,
                    mount_argv(name@, device_of(source.stdout@), target@),
                    target@,
                )
            },
    {
        if !source.success {
            return Err(query_error(ErrorKind::BackendQueryFailed, BackendQuery::RootSource, &source.stderr));
        }
        let device = device_in(source.stdout.as_str());
        if device.as_str().is_empty() {
            return Err(query_error(ErrorKind::DeviceResolutionFailed, BackendQuery::RootSource, &source.stdout));
        }
        let mut option = String::from_str("subvol=");
        option.append(name);
        let mut c = BackendCommand::new("mount");
        c.arg("-o");
        c.arg(option.as_str());
        c.arg(device.as_str());
        c.arg(target);
        assert(c.argv() =~= mount_argv(name@, device_of(source.stdout@), target@));
        if str_equal(target, "/") {
            return Err(StorageError { kind: ErrorKind::MountFailed, command: c, detail: String::from_str(target) });
        }
        Ok(c)
    }

    /// The result of a create or delete command, from what its run left behind.
    pub fn command_result(&self, command: BackendCommand, out: &CommandOutput) -> (r: Result<(), StorageError>)
        ensures
            r is Ok <==> out.success,
            r matches Err(e) ==> reports(e, ErrorKind::BackendCommandFailed, command.argv(), out.stderr@),
    {
        if out.success {
            Ok(())
        } else {
            Err(StorageError { kind: ErrorKind::BackendCommandFailed, command, detail: out.stderr.clone() })
        }
    }

    /// The result of a mount command, from what its run left behind.
    pub fn mount_result(&self, command: BackendCommand, out: &CommandOutput) -> (r: Result<(), StorageError>)
        ensures
            r is Ok <==> out.success,
            r matches Err(e) ==> reports(e, ErrorKind::MountFailed, command.argv(), out.stderr@),
    {
        if out.success {
            Ok(())
        } else {
            Err(StorageError { kind: ErrorKind::MountFailed, command, detail: out.stderr.clone() })
        }
    }
}

/// The slot to deploy to next, given the path of the current root.
pub fn next_target_after(path: &str) -> (r: TargetRoots)
    ensures
        r == next_target_for(path@),
{
    if str_equal(path, TargetRoots::A.as_str()) {
        TargetRoots::B
    } else if str_equal(path, TargetRoots::B.as_str()) {
        TargetRoots::A
    } else {
        TargetRoots::A
    }
}

/// Whether two strings hold the same characters.
pub fn str_equal(x: &str, y: &str) -> (r: bool)
    ensures
        r == (x@ == y@),
{
    let s = crate::text::chars_of(x);
    let t = crate::text::chars_of(y);
    assert(s@.subrange(0, s.len() as int) =~= s@);
    window_equals(&s, 0, s.len(), &t)
}

/// The names of the subvolumes that a listing reports.
pub open spec fn listed_names(listing: Seq<char>) -> Set<Seq<char>> {
    Set::new(|n: Seq<char>| listed(listing, n))
}

/// Creating a subvolume is idempotent: once a successful request to create `name`
/// has taken effect, so that the listing reports `name` beside what it reported
/// before, a second request to create `name` runs no command and succeeds.
pub proof fn lemma_create_idempotent(first: CommandOutput, second: CommandOutput, name: Seq<char>)
    requires
        create_outcome(first, name) is Ok,
        second.success,
        listed_names(second.stdout@) == listed_names(first.stdout@).insert(name),
    ensures
        create_outcome(second, name) == Ok::<bool, ErrorKind>(false),
{
    assert(listed_names(second.stdout@).contains(name));
}

/// Deleting a subvolume is idempotent: once a successful request to delete `name`
/// has taken effect, so that the listing no longer reports `name`, a second request
/// to delete `name` runs no command and succeeds.
pub proof fn lemma_delete_idempotent(
    root_path: Seq<char>,
    first: CommandOutput,
    second: CommandOutput,
    name: Seq<char>,
)
    requires
        delete_outcome(root_path, first, name) is Ok,
        second.success,
        listed_names(second.stdout@) == listed_names(first.stdout@).remove(name),
    ensures
        delete_outcome(root_path, second, name) == Ok::<bool, ErrorKind>(false),
{
    assert(!listed_names(second.stdout@).contains(name));
}

/// The subvolume mounted at `/` is never deleted: where the root mount's source
/// embeds a slot's canonical name and the listing reports that name, a request to
/// delete it is refused.
pub proof fn lemma_active_root_refused(source: Seq<char>, listing: CommandOutput, slot: TargetRoots)
    requires
        embedded_path(source) == Some(slot_name(slot)),
        listing.success,
        listed(listing.stdout@, slot_name(slot)),
    ensures
        delete_outcome(current_path(source), listing, slot_name(slot)) == Err::<bool, ErrorKind>(
            ErrorKind::RefusedActiveRootDeletion,
        ),
{
}

/// A search from `i` finds the first occurrence at or after `i`.
proof fn lemma_find_from_first(s: Seq<char>, pat: Seq<char>, i: int, j: int)
    requires
        0 <= i <= j,
        occurs_at(s, pat, j),
        forall|k: int| i <= k < j ==> !occurs_at(s, pat, k),
    ensures
        find_from(s, pat, i) == Some(j),
    decreases j - i,
{
    if i < j {
        lemma_find_from_first(s, pat, i + 1, j);
    }
}

/// A one-character pattern occurs exactly where that character stands.
proof fn lemma_occurs_char(s: Seq<char>, c: char, k: int)
    requires
        0 <= k < s.len(),
    ensures
        occurs_at(s, seq![c], k) <==> s[k] == c,
{
    if s[k] == c {
        assert(s.subrange(k, k + 1) =~= seq![c]);
    } else {
        assert(s.subrange(k, k + 1)[0] != seq![c][0]);
    }
}

/// The next deployment target is the slot that is not current: for a root mount
/// source `<device>[/<canonical name of slot>]<rest>`, where the device holds no `[`,
/// the reported root path is that name and the next target is the other slot.
pub proof fn lemma_next_target_is_other_slot(device: Seq<char>, rest: Seq<char>, slot: TargetRoots)
    requires
        forall|k: int| 0 <= k < device.len() ==> device[k] != '[',
    ensures
        current_path(device + "[/"@ + slot_name(slot) + "]"@ + rest) == slot_name(slot),
        next_target_for(current_path(device + "[/"@ + slot_name(slot) + "]"@ + rest)) == other_slot(
            slot,
        ),
{
    reveal_strlit("[");
    reveal_strlit("]");
    reveal_strlit("[/");
    reveal_strlit("@active_a");
    reveal_strlit("@active_b");
    let name = slot_name(slot);
    let src = device + "[/"@ + name + "]"@ + rest;
    let i = device.len() as int;
    assert(src[i] == '[');
    assert("["@ =~= seq!['[']);
    assert("]"@ =~= seq![']']);
    assert forall|k: int| 0 <= k < i implies !occurs_at(src, "["@, k) by {
        assert(src[k] == device[k]);
        lemma_occurs_char(src, '[', k);
    }
    lemma_occurs_char(src, '[', i);
    assert("["@ =~= seq!['[']);
    lemma_find_from_first(src, "["@, 0, i);
    let tail = src.skip(i + 1);
    let j = name.len() + 1int;
    assert(tail =~= seq!['/'] + name + "]"@ + rest);
    assert(tail[j] == ']');
    assert("]"@ =~= seq![']']);
    assert forall|k: int| 0 <= k < j implies !occurs_at(tail, "]"@, k) by {
        if k > 0 {
            assert(tail[k] == name[k - 1]);
        }
        lemma_occurs_char(tail, ']', k);
    }
    lemma_occurs_char(tail, ']', j);
    lemma_find_from_first(tail, "]"@, 0, j);
    assert(tail.take(j).drop_first() =~= name);
    assert(slot_name(TargetRoots::B)[8] != slot_name(TargetRoots::A)[8]);
}

} // verus!
