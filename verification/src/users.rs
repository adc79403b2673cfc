//! User accounts: creating them, installing their SSH keys, securing their
//! home directories and granting sudo, driven by the user database.
use vstd::prelude::*;
use vstd::string::*;

use crate::config::{copy_strings, User};
use crate::ops::{
    drive, next_op, next_step, op_step_view, ops_view, HeroError, ProcessOutcome, Step, SystemOp,
    SystemOpView,
};
use crate::paths;
use crate::text::{
    chars_eq, chars_of, join, join_path, lines, path_join, lines_chars, parse_unsigned, parse_unsigned_chars, push_joined,
    split, split_chars, string_of, views,
};

verus! {

// ---------------------------------------------------------------------------
// The user database
// ---------------------------------------------------------------------------

/// The home directory of the first line of `ls` that names `user` and has
/// at least six colon-separated fields (the sixth is the home directory).
pub open spec fn home_entry(ls: Seq<Seq<char>>, user: Seq<char>) -> Option<Seq<char>>
    decreases ls.len(),
{
    if ls.len() == 0 {
        None
    } else {
        let f = split(ls[0], ':');
        if f.len() >= 6 && f[0] == user {
            Some(f[5])
        } else {
            home_entry(ls.drop_first(), user)
        }
    }
}

/// The fields of the first line of `ls` that names `user` and has at least
/// four colon-separated fields (the third and fourth are the user and group
/// ids).
pub open spec fn id_entry(ls: Seq<Seq<char>>, user: Seq<char>) -> Option<Seq<Seq<char>>>
    decreases ls.len(),
{
    if ls.len() == 0 {
        None
    } else {
        let f = split(ls[0], ':');
        if f.len() >= 4 && f[0] == user {
            Some(f)
        } else {
            id_entry(ls.drop_first(), user)
        }
    }
}

/// The home directory the user database gives `user`.
pub open spec fn home_of(passwd: Seq<char>, user: Seq<char>) -> Option<Seq<char>> {
    home_entry(lines(passwd), user)
}

/// Finds the line of the user in the database and gives its fields.
fn find_entry(username: &str, passwd: &str, min_fields: usize) -> (r: Option<Vec<Vec<char>>>)
    requires
        min_fields == 4 || min_fields == 6,
    ensures
        min_fields == 6 ==> match r {
            Some(f) => home_entry(lines(passwd@), username@) == Some(
                f@.map_values(|p: Vec<char>| p@)[5],
            ) && f@.len() >= 6,
            None => home_entry(lines(passwd@), username@) is None,
        },
        min_fields == 4 ==> match r {
            Some(f) => id_entry(lines(passwd@), username@) == Some(
                f@.map_values(|p: Vec<char>| p@),
            ) && f@.len() >= 4,
            None => id_entry(lines(passwd@), username@) is None,
        },
{
    let text = chars_of(passwd);
    let user = chars_of(username);
    let ls = lines_chars(&text);
    let ghost lv = ls@.map_values(|p: Vec<char>| p@);
    let mut i: usize = 0;
    assert(lv.skip(0) =~= lv);
    while i < ls.len()
        invariant
            i <= ls.len(),
            lv == ls@.map_values(|p: Vec<char>| p@),
            lv == lines(passwd@),
            user@ == username@,
            min_fields == 4 || min_fields == 6,
            min_fields == 6 ==> home_entry(lv, user@) == home_entry(lv.skip(i as int), user@),
            min_fields == 4 ==> id_entry(lv, user@) == id_entry(lv.skip(i as int), user@),
        decreases ls.len() - i,
    {
        let fields = split_chars(&ls[i], ':');
        let ghost rest = lv.skip(i as int);
        assert(rest[0] == lv[i as int]);
        assert(rest.drop_first() =~= lv.skip(i + 1));
        if fields.len() >= min_fields && chars_eq(&fields[0], &user) {
            return Some(fields);
        }
        i = i + 1;
    }
    None
}

/// The home directory of `username` in the user database text `passwd`.
pub fn resolve_home_dir(username: &str, passwd: &str) -> (r: Result<String, HeroError>)
    ensures
        match home_of(passwd@, username@) {
            Some(h) => r matches Ok(d) && d@ == h,
            None => r matches Err(HeroError::UserNotFound(u)) && u@ == username@,
        },
{
    match find_entry(username, passwd, 6) {
        Some(fields) => Ok(string_of(&fields[5])),
        None => Err(HeroError::UserNotFound(String::from_str(username))),
    }
}

/// The largest user or group id.
pub open spec fn id_max() -> nat {
    0xffff_ffff
}

/// The user and group ids of `username` in the user database text `passwd`.
pub fn get_user_ids(username: &str, passwd: &str) -> (r: Result<(u32, u32), HeroError>)
    ensures
        match id_entry(lines(passwd@), username@) {
            None => r matches Err(HeroError::NoUserIds(u)) && u@ == username@,
            Some(f) => match parse_unsigned(f[2], id_max()) {
                None => r matches Err(HeroError::InvalidNumber(t)) && t@ == f[2],
                Some(u) => match parse_unsigned(f[3], id_max()) {
                    None => r matches Err(HeroError::InvalidNumber(t)) && t@ == f[3],
                    Some(g) => r == Ok::<(u32, u32), HeroError>((u as u32, g as u32)),
                },
            },
        },
{
    match find_entry(username, passwd, 4) {
        None => Err(HeroError::NoUserIds(String::from_str(username))),
        Some(fields) => {
            let uid = parse_unsigned_chars(&fields[2], 0xffff_ffff);
            match uid {
                None => Err(HeroError::InvalidNumber(string_of(&fields[2]))),
                Some(u) => {
                    let gid = parse_unsigned_chars(&fields[3], 0xffff_ffff);
                    match gid {
                        None => Err(HeroError::InvalidNumber(string_of(&fields[3]))),
                        Some(g) => Ok((u as u32, g as u32)),
                    }
                },
            }
        },
    }
}

// ---------------------------------------------------------------------------
// Paths
// ---------------------------------------------------------------------------

/// The directory that holds a user's SSH configuration.
pub open spec fn ssh_dir_of(home: Seq<char>) -> Seq<char> {
    path_join(home, ".ssh"@)
}

/// The file that lists the keys allowed to log in as a user.
pub open spec fn authorized_keys_of(home: Seq<char>) -> Seq<char> {
    path_join(ssh_dir_of(home), "authorized_keys"@)
}

/// The SSH directory under a home directory.
pub fn ssh_dir(home: &str) -> (r: String)
    ensures
        r@ == ssh_dir_of(home@),
{
    join_path(home, ".ssh")
}

/// The authorized keys file under a home directory.
pub fn authorized_keys_path(home: &str) -> (r: String)
    ensures
        r@ == authorized_keys_of(home@),
{
    let dir = ssh_dir(home);
    join_path(dir.as_str(), "authorized_keys")
}

// ---------------------------------------------------------------------------
// Accounts
// ---------------------------------------------------------------------------

/// The arguments of `useradd`: create the home directory, use the shell,
/// join the groups (comma-separated) if there are any, and the user name.
pub open spec fn useradd_args(username: Seq<char>, shell: Seq<char>, groups: Seq<Seq<char>>) -> Seq<
    Seq<char>,
> {
    seq!["-m"@, "-s"@, shell] + (if groups.len() > 0 {
        seq!["-G"@, join(groups, ","@)]
    } else {
        Seq::empty()
    }) + seq![username]
}

/// The `useradd` arguments are `-m`, `-s` and the shell, then, exactly when
/// the user has groups, `-G` and the groups joined by commas (a single group
/// standing alone), and last the user name.
pub proof fn law_useradd_args(username: Seq<char>, shell: Seq<char>, groups: Seq<Seq<char>>)
    ensures
        groups.len() == 0 ==> useradd_args(username, shell, groups) == seq!["-m"@, "-s"@, shell, username],
        groups.len() > 0 ==> useradd_args(username, shell, groups) == seq![
            "-m"@,
            "-s"@,
            shell,
            "-G"@,
            join(groups, ","@),
            username,
        ],
        groups.len() == 1 ==> useradd_args(username, shell, groups)[4] == groups[0],
        groups.len() > 1 ==> useradd_args(username, shell, groups)[4] == join(groups.drop_last(), ","@)
            + ","@ + groups.last(),
{
    let a = useradd_args(username, shell, groups);
    if groups.len() == 0 {
        assert(a =~= seq!["-m"@, "-s"@, shell, username]);
    } else {
        assert(a =~= seq!["-m"@, "-s"@, shell, "-G"@, join(groups, ","@), username]);
    }
}

/// What the account creation procedure has learned.
#[derive(Debug)]
pub enum AccountEvent {
    /// Nothing yet.
    Start,
    /// How `id <user>` ended.
    IdChecked(ProcessOutcome),
    /// How `useradd` ended.
    UserAdded(ProcessOutcome),
}

/// What the account creation procedure asks for.
#[derive(Debug)]
pub enum AccountAction {
    /// Run the program that tells whether the user exists, and report how
    /// it ended as [`AccountEvent::IdChecked`].
    LookUp { program: String, args: Vec<String> },
    /// Run the program that creates the user, and report how it ended as
    /// [`AccountEvent::UserAdded`].
    Create { program: String, args: Vec<String> },
    /// The procedure is over, with this result.
    Done(Result<(), HeroError>),
}

/// The message of a failed account creation.
pub open spec fn creation_failure(username: Seq<char>) -> Seq<char> {
    "Failed to create user: "@ + username
}

/// `a` asks to look the user up by running `program` with `args`.
pub open spec fn asks_to_look_up(a: AccountAction, program: Seq<char>, args: Seq<Seq<char>>) -> bool {
    a matches AccountAction::LookUp { program: p, args: v } && p@ == program && v@.map_values(
        |s: String| s@,
    ) == args
}

/// `a` asks to create the user by running `program` with `args`.
pub open spec fn asks_to_create(a: AccountAction, program: Seq<char>, args: Seq<Seq<char>>) -> bool {
    a matches AccountAction::Create { program: p, args: v } && p@ == program && v@.map_values(
        |s: String| s@,
    ) == args
}

/// One step of creating a user account: first ask whether the user exists
/// (`id <user>`); if it does, there is nothing to do; otherwise run
/// `useradd`, which must succeed. A program that cannot be started ends the
/// procedure with the system's message.
pub fn add_system_user(username: &str, shell: &str, groups: &Vec<String>, event: &AccountEvent) -> (a:
    AccountAction)
    ensures
        match event {
            AccountEvent::Start => asks_to_look_up(a, "id"@, seq![username@]),
            AccountEvent::IdChecked(ProcessOutcome::NotStarted(k, m)) => a matches AccountAction::Done(
                Err(HeroError::Io(ek, e)),
            ) && ek == *k && e@ == m@,
            AccountEvent::IdChecked(ProcessOutcome::Exited { success }) => if *success {
                a matches AccountAction::Done(Ok(()))
            } else {
                asks_to_create(a, "useradd"@, useradd_args(username@, shell@, views(groups@)))
            },
            AccountEvent::UserAdded(ProcessOutcome::NotStarted(k, m)) => a matches AccountAction::Done(
                Err(HeroError::Io(ek, e)),
            ) && ek == *k && e@ == m@,
            AccountEvent::UserAdded(ProcessOutcome::Exited { success }) => if *success {
                a matches AccountAction::Done(Ok(()))
            } else {
                a matches AccountAction::Done(Err(HeroError::CommandFailed(e))) && e@
                    == creation_failure(username@)
            },
        },
{
    match event {
        AccountEvent::Start => {
            let mut args: Vec<String> = Vec::new();
            args.push(String::from_str(username));
            assert(args@.map_values(|s: String| s@) =~= seq![username@]);
            AccountAction::LookUp { program: String::from_str("id"), args }
        },
        AccountEvent::IdChecked(ProcessOutcome::NotStarted(k, m)) => AccountAction::Done(
            Err(HeroError::Io(*k, m.clone())),
        ),
        AccountEvent::IdChecked(ProcessOutcome::Exited { success }) => {
            if *success {
                AccountAction::Done(Ok(()))
            } else {
                let mut args: Vec<String> = Vec::new();
                args.push(String::from_str("-m"));
                args.push(String::from_str("-s"));
                args.push(String::from_str(shell));
                if groups.len() > 0 {
                    args.push(String::from_str("-G"));
                    let mut joined = String::new();
                    push_joined(&mut joined, groups, ",");
                    assert(joined@ =~= join(views(groups@), ","@));
                    args.push(joined);
                }
                args.push(String::from_str(username));
                assert(args@.map_values(|s: String| s@) =~= useradd_args(
                    username@,
                    shell@,
                    views(groups@),
                ));
                AccountAction::Create { program: String::from_str("useradd"), args }
            }
        },
        AccountEvent::UserAdded(ProcessOutcome::NotStarted(k, m)) => AccountAction::Done(
            Err(HeroError::Io(*k, m.clone())),
        ),
        AccountEvent::UserAdded(ProcessOutcome::Exited { success }) => {
            if *success {
                AccountAction::Done(Ok(()))
            } else {
                let mut msg = String::from_str("Failed to create user: ");
                msg.append(username);
                AccountAction::Done(Err(HeroError::CommandFailed(msg)))
            }
        },
    }
}

// ---------------------------------------------------------------------------
// SSH keys, ownership and sudo
// ---------------------------------------------------------------------------

/// The content of an authorized keys file: one key per line.
pub open spec fn authorized_keys_content(keys: Seq<Seq<char>>) -> Seq<char> {
    join(keys, "\n"@) + "\n"@
}

/// Installing keys under a home directory: the SSH directory is created and
/// the authorized keys file holds the keys.
pub open spec fn key_ops(home: Seq<char>, keys: Seq<Seq<char>>) -> Seq<SystemOpView> {
    seq![
        SystemOpView::CreateDirAll { path: ssh_dir_of(home) },
        SystemOpView::WriteFile { path: authorized_keys_of(home), content: authorized_keys_content(keys) },
    ]
}

fn key_plan(username: &str, keys: &Vec<String>, passwd: &str) -> (r: Result<Vec<SystemOp>, HeroError>)
    ensures
        keys@.len() == 0 ==> (r matches Ok(ops) && ops@.len() == 0),
        keys@.len() > 0 ==> match home_of(passwd@, username@) {
            Some(h) => r matches Ok(ops) && ops_view(ops@) == key_ops(h, views(keys@)),
            None => r matches Err(HeroError::UserNotFound(u)) && u@ == username@,
        },
{
    if keys.len() == 0 {
        return Ok(Vec::new());
    }
    let home = resolve_home_dir(username, passwd)?;
    let dir = ssh_dir(home.as_str());
    let file = authorized_keys_path(home.as_str());
    let mut content = String::new();
    push_joined(&mut content, keys, "\n");
    content.append("\n");
    let mut ops: Vec<SystemOp> = Vec::new();
    ops.push(SystemOp::CreateDirAll { path: dir });
    ops.push(SystemOp::WriteFile { path: file, content });
    assert(ops_view(ops@) =~= key_ops(home@, views(keys@)));
    Ok(ops)
}

/// Installing a user's SSH keys, given the user database text (which is
/// only consulted when there are keys), step by step: without keys there is
/// nothing to do; a user the database does not list ends the run with that
/// error; otherwise, once `completed` steps have succeeded and the last
/// report was `last`, the next step of [`key_ops`] under the home directory
/// the database gives the user, or the end of the run. The steps run in
/// order and the first failure ends the run with that failure.
pub fn inject_ssh_keys(
    username: &str,
    keys: &Vec<String>,
    passwd: &str,
    completed: usize,
    last: Option<Result<(), HeroError>>,
) -> (s: Step<SystemOp>)
    ensures
        keys@.len() == 0 ==> op_step_view(s) == next_step(Seq::<SystemOpView>::empty(), completed as nat, last),
        keys@.len() > 0 ==> match home_of(passwd@, username@) {
            Some(h) => op_step_view(s) == next_step(key_ops(h, views(keys@)), completed as nat, last),
            None => s matches Step::Finished(Err(HeroError::UserNotFound(u))) && u@ == username@,
        },
{
    match key_plan(username, keys, passwd) {
        Ok(plan) => {
            proof {
                if keys@.len() == 0 {
                    assert(ops_view(plan@) =~= Seq::<SystemOpView>::empty());
                }
            }
            next_op(plan, completed, last)
        },
        Err(e) => Step::Finished(Err(e)),
    }
}

/// Securing a home directory: with keys, the SSH directory becomes the
/// user's with mode 700 and, if it exists, the authorized keys file the
/// user's with mode 600; then the home directory becomes the user's with
/// mode 755.
pub open spec fn home_ops(home: Seq<char>, uid: u32, gid: u32, has_keys: bool, keys_file_exists: bool) -> Seq<
    SystemOpView,
> {
    (if has_keys {
        seq![SystemOpView::SetOwnerAndMode { path: ssh_dir_of(home), mode: 0o700, uid, gid }] + (
        if keys_file_exists {
            seq![SystemOpView::SetOwnerAndMode { path: authorized_keys_of(home), mode: 0o600, uid, gid }]
        } else {
            Seq::empty()
        })
    } else {
        Seq::empty()
    }) + seq![SystemOpView::SetOwnerAndMode { path: home, mode: 0o755, uid, gid }]
}

/// Securing a home only hands files to their owner: every step sets the
/// owner to exactly the given user and group ids; with keys the SSH
/// directory gets mode 700 first and then, if it exists, the authorized keys
/// file mode 600; the last step gives the home directory mode 755, and
/// without keys it is the only step.
pub proof fn law_home_ops_owner(home: Seq<char>, uid: u32, gid: u32, has_keys: bool, keys_file_exists: bool)
    ensures
        forall|j: int|
            0 <= j < home_ops(home, uid, gid, has_keys, keys_file_exists).len() ==> match #[trigger] home_ops(
                home,
                uid,
                gid,
                has_keys,
                keys_file_exists,
            )[j] {
                SystemOpView::SetOwnerAndMode { uid: u, gid: g, .. } => u == uid && g == gid,
                _ => false,
            },
        has_keys ==> match home_ops(home, uid, gid, has_keys, keys_file_exists)[0] {
            SystemOpView::SetOwnerAndMode { path, mode, .. } => path == ssh_dir_of(home) && mode == 0o700,
            _ => false,
        },
        has_keys && keys_file_exists ==> match home_ops(home, uid, gid, has_keys, keys_file_exists)[1] {
            SystemOpView::SetOwnerAndMode { path, mode, .. } => path == authorized_keys_of(home) && mode
                == 0o600,
            _ => false,
        },
        home_ops(home, uid, gid, has_keys, keys_file_exists).last() == (SystemOpView::SetOwnerAndMode {
            path: home,
            mode: 0o755,
            uid,
            gid,
        }),
        home_ops(home, uid, gid, has_keys, keys_file_exists).len() == if has_keys {
            if keys_file_exists { 3int } else { 2int }
        } else {
            1int
        },
{
}

fn home_plan(home: &str, uid: u32, gid: u32, has_keys: bool, keys_file_exists: bool) -> (ops: Vec<
    SystemOp,
>)
    ensures
        ops_view(ops@) == home_ops(home@, uid, gid, has_keys, keys_file_exists),
{
    let mut ops: Vec<SystemOp> = Vec::new();
    if has_keys {
        ops.push(SystemOp::SetOwnerAndMode { path: ssh_dir(home), mode: 0o700, uid, gid });
        if keys_file_exists {
            ops.push(
                SystemOp::SetOwnerAndMode { path: authorized_keys_path(home), mode: 0o600, uid, gid },
            );
        }
    }
    ops.push(SystemOp::SetOwnerAndMode { path: String::from_str(home), mode: 0o755, uid, gid });
    assert(ops_view(ops@) =~= home_ops(home@, uid, gid, has_keys, keys_file_exists));
    ops
}

/// Giving a user ownership of their home directory and SSH files, step by
/// step: once `completed` steps have succeeded and the last report was
/// `last`, the next step of [`home_ops`] or the end of the run; the steps
/// run in order and the first failure ends the run with that failure.
pub fn secure_home(
    home: &str,
    uid: u32,
    gid: u32,
    has_keys: bool,
    keys_file_exists: bool,
    completed: usize,
    last: Option<Result<(), HeroError>>,
) -> (s: Step<SystemOp>)
    ensures
        op_step_view(s) == next_step(
            home_ops(home@, uid, gid, has_keys, keys_file_exists),
            completed as nat,
            last,
        ),
{
    next_op(home_plan(home, uid, gid, has_keys, keys_file_exists), completed, last)
}

/// Giving a user ownership of their home directory and SSH files, with the
/// home directory and the ids the user database text `passwd` gives the
/// user, step by step: a user without a home directory line, or without an
/// ids line, or with ids that are not numbers, ends the run with that error
/// (the home directory is looked up first); otherwise, once `completed`
/// steps have succeeded and the last report was `last`, the next step of
/// [`home_ops`] or the end of the run, the first failure ending it.
pub fn secure_user_home(
    username: &str,
    has_keys: bool,
    passwd: &str,
    keys_file_exists: bool,
    completed: usize,
    last: Option<Result<(), HeroError>>,
) -> (s: Step<SystemOp>)
    ensures
        match home_of(passwd@, username@) {
            None => s matches Step::Finished(Err(HeroError::UserNotFound(u))) && u@ == username@,
            Some(h) => match id_entry(lines(passwd@), username@) {
                None => s matches Step::Finished(Err(HeroError::NoUserIds(u))) && u@ == username@,
                Some(f) => match parse_unsigned(f[2], id_max()) {
                    None => s matches Step::Finished(Err(HeroError::InvalidNumber(t))) && t@ == f[2],
                    Some(uid) => match parse_unsigned(f[3], id_max()) {
                        None => s matches Step::Finished(Err(HeroError::InvalidNumber(t))) && t@
                            == f[3],
                        Some(gid) => op_step_view(s) == next_step(
                            home_ops(h, uid as u32, gid as u32, has_keys, keys_file_exists),
                            completed as nat,
                            last,
                        ),
                    },
                },
            },
        },
{
    let home = match resolve_home_dir(username, passwd) {
        Ok(h) => h,
        Err(e) => return Step::Finished(Err(e)),
    };
    let (uid, gid) = match get_user_ids(username, passwd) {
        Ok(ids) => ids,
        Err(e) => return Step::Finished(Err(e)),
    };
    secure_home(home.as_str(), uid, gid, has_keys, keys_file_exists, completed, last)
}

/// The sudoers rule that lets a user run anything without a password.
pub open spec fn sudo_rule(username: Seq<char>) -> Seq<char> {
    username + " ALL=(ALL) NOPASSWD:ALL\n"@
}

/// Granting sudo: the drop-in directory is created, the user's file in it
/// holds the rule, and the file is made read-only (mode 440).
pub open spec fn sudo_ops(username: Seq<char>, dir: Seq<char>) -> Seq<SystemOpView> {
    let path = dir + "/"@ + username;
    seq![
        SystemOpView::CreateDirAll { path: dir },
        SystemOpView::WriteFile { path, content: sudo_rule(username) },
        SystemOpView::SetMode { path, mode: 0o440 },
    ]
}

fn sudo_plan(username: &str, sudoers_path: &str) -> (ops: Vec<SystemOp>)
    ensures
        ops_view(ops@) == sudo_ops(username@, sudoers_path@),
{
    let mut path = String::from_str(sudoers_path);
    path.append("/");
    path.append(username);
    let mut rule = String::from_str(username);
    rule.append(" ALL=(ALL) NOPASSWD:ALL\n");
    let mut ops: Vec<SystemOp> = Vec::new();
    ops.push(SystemOp::CreateDirAll { path: String::from_str(sudoers_path) });
    ops.push(SystemOp::WriteFile { path: path.clone(), content: rule });
    ops.push(SystemOp::SetMode { path, mode: 0o440 });
    assert(ops_view(ops@) =~= sudo_ops(username@, sudoers_path@));
    ops
}

/// Granting sudo to a user through a file in `sudoers_path`, step by step:
/// once `completed` steps have succeeded and the last report was `last`,
/// the next step of [`sudo_ops`] or the end of the run; the steps run in
/// order and the first failure ends the run with that failure.
pub fn add_sudo_rule_with_path(
    username: &str,
    sudoers_path: &str,
    completed: usize,
    last: Option<Result<(), HeroError>>,
) -> (s: Step<SystemOp>)
    ensures
        op_step_view(s) == next_step(sudo_ops(username@, sudoers_path@), completed as nat, last),
{
    next_op(sudo_plan(username, sudoers_path), completed, last)
}

/// Granting sudo to a user, step by step (see [`add_sudo_rule_with_path`]).
pub fn add_sudo_rule(username: &str, completed: usize, last: Option<Result<(), HeroError>>) -> (s: Step<
    SystemOp,
>)
    ensures
        op_step_view(s) == next_step(
            sudo_ops(username@, paths::SUDOERS_PATH@),
            completed as nat,
            last,
        ),
{
    add_sudo_rule_with_path(username, paths::SUDOERS_PATH, completed, last)
}

// ---------------------------------------------------------------------------
// All users
// ---------------------------------------------------------------------------

/// A part of configuring a user.
#[derive(Debug, Clone, Copy, PartialEq, Eq)]
pub enum UserTaskKind {
    /// Create the account if it does not exist.
    CreateAccount,
    /// Install the user's SSH keys.
    InstallKeys,
    /// Give the user its home directory and SSH files.
    SecureHome,
    /// Grant sudo.
    GrantSudo,
}

/// A part of configuring the user at position `user`.
#[derive(Debug, Clone, Copy, PartialEq, Eq)]
pub struct UserTask {
    pub user: usize,
    pub kind: UserTaskKind,
}

/// The tasks of the user at position `i`: create the account, install the
/// keys, secure the home directory, and grant sudo if asked.
pub open spec fn tasks_of(i: int, u: User) -> Seq<UserTask> {
    seq![
        UserTask { user: i as usize, kind: UserTaskKind::CreateAccount },
        UserTask { user: i as usize, kind: UserTaskKind::InstallKeys },
        UserTask { user: i as usize, kind: UserTaskKind::SecureHome },
    ] + if u.sudo {
        seq![UserTask { user: i as usize, kind: UserTaskKind::GrantSudo }]
    } else {
        Seq::empty()
    }
}

/// The tasks of the first `n` users, user by user.
pub open spec fn tasks_upto(users: Seq<User>, n: nat) -> Seq<UserTask>
    decreases n,
{
    if n == 0 {
        Seq::empty()
    } else {
        tasks_upto(users, (n - 1) as nat) + tasks_of(n - 1, users[n - 1])
    }
}

/// The tasks of configuring all users, in order.
pub open spec fn user_tasks(users: Seq<User>) -> Seq<UserTask> {
    tasks_upto(users, users.len())
}

proof fn lemma_tasks_upto_users(users: Seq<User>, n: nat)
    requires
        n <= users.len() <= usize::MAX,
    ensures
        forall|j: int| 0 <= j < tasks_upto(users, n).len() ==> (#[trigger] tasks_upto(users, n)[j]).user < n,
    decreases n,
{
    if n > 0 {
        lemma_tasks_upto_users(users, (n - 1) as nat);
        let a = tasks_upto(users, (n - 1) as nat);
        let b = tasks_of(n - 1, users[n - 1]);
        assert forall|j: int| 0 <= j < (a + b).len() implies (#[trigger] (a + b)[j]).user < n by {
            if j >= a.len() {
                assert((a + b)[j] == b[j - a.len()]);
            } else {
                assert((a + b)[j] == a[j]);
            }
        }
    }
}

proof fn lemma_tasks_upto_sudo(users: Seq<User>, n: nat, i: int)
    requires
        0 <= i < n <= users.len() <= usize::MAX,
    ensures
        tasks_upto(users, n).contains(UserTask { user: i as usize, kind: UserTaskKind::GrantSudo })
            <==> users[i].sudo,
    decreases n,
{
    let t = UserTask { user: i as usize, kind: UserTaskKind::GrantSudo };
    let a = tasks_upto(users, (n - 1) as nat);
    let b = tasks_of(n - 1, users[n - 1]);
    assert(tasks_upto(users, n) == a + b);
    if i < n - 1 {
        lemma_tasks_upto_sudo(users, (n - 1) as nat, i);
        if (a + b).contains(t) {
            let j = choose|j: int| 0 <= j < (a + b).len() && (a + b)[j] == t;
            if j >= a.len() {
                assert(b[j - a.len()] == t);
                assert(b[j - a.len()].user == (n - 1) as usize);
            } else {
                assert(a[j] == t);
            }
        }
        if a.contains(t) {
            let j = choose|j: int| 0 <= j < a.len() && a[j] == t;
            assert((a + b)[j] == t);
        }
    } else {
        lemma_tasks_upto_users(users, (n - 1) as nat);
        if (a + b).contains(t) {
            let j = choose|j: int| 0 <= j < (a + b).len() && (a + b)[j] == t;
            if j < a.len() {
                assert(a[j] == t);
                assert(a[j].user < n - 1);
            } else {
                assert(b[j - a.len()] == t);
            }
        }
        if users[i].sudo {
            assert((a + b)[a.len() + 3int] == t);
        }
    }
}

/// Sudo is granted to a user exactly when the configuration asks for it.
pub proof fn law_sudo_only_when_asked(users: Seq<User>, i: int)
    requires
        0 <= i < users.len(),
        users.len() <= usize::MAX,
    ensures
        user_tasks(users).contains(UserTask { user: i as usize, kind: UserTaskKind::GrantSudo })
            <==> users[i].sudo,
{
    lemma_tasks_upto_sudo(users, users.len(), i);
}

/// What a task asks the system to do for a user.
#[derive(Debug, PartialEq, Eq)]
pub enum UserRequest {
    /// Create the account with this login shell and these groups, unless it
    /// exists (see [`add_system_user`]).
    CreateAccount { name: String, shell: String, groups: Vec<String> },
    /// Install these SSH keys (see [`inject_ssh_keys`]).
    InstallKeys { name: String, keys: Vec<String> },
    /// Give the user its home directory and SSH files, the SSH ones only
    /// when it has keys (see [`secure_user_home`]).
    SecureHome { name: String, has_keys: bool },
    /// Grant sudo (see [`add_sudo_rule`]).
    GrantSudo { name: String },
}

/// A [`UserRequest`] with its strings taken by their characters.
pub enum UserRequestView {
    CreateAccount { name: Seq<char>, shell: Seq<char>, groups: Seq<Seq<char>> },
    InstallKeys { name: Seq<char>, keys: Seq<Seq<char>> },
    SecureHome { name: Seq<char>, has_keys: bool },
    GrantSudo { name: Seq<char> },
}

impl View for UserRequest {
    type V = UserRequestView;

    open spec fn view(&self) -> UserRequestView {
        match self {
            UserRequest::CreateAccount { name, shell, groups } => UserRequestView::CreateAccount {
                name: name@,
                shell: shell@,
                groups: views(groups@),
            },
            UserRequest::InstallKeys { name, keys } => UserRequestView::InstallKeys {
                name: name@,
                keys: views(keys@),
            },
            UserRequest::SecureHome { name, has_keys } => UserRequestView::SecureHome {
                name: name@,
                has_keys: *has_keys,
            },
            UserRequest::GrantSudo { name } => UserRequestView::GrantSudo { name: name@ },
        }
    }
}

/// The request a task makes for user `u`: the account gets the bash shell
/// and the user's groups, the keys are the user's keys, and the home is
/// secured with the SSH files exactly when the user has keys.
pub open spec fn request_of(u: User, kind: UserTaskKind) -> UserRequestView {
    match kind {
        UserTaskKind::CreateAccount => UserRequestView::CreateAccount {
            name: u.name@,
            shell: paths::BASH_PATH@,
            groups: views(u.groups@),
        },
        UserTaskKind::InstallKeys => UserRequestView::InstallKeys {
            name: u.name@,
            keys: views(u.ssh_authorized_keys@),
        },
        UserTaskKind::SecureHome => UserRequestView::SecureHome {
            name: u.name@,
            has_keys: u.ssh_authorized_keys@.len() > 0,
        },
        UserTaskKind::GrantSudo => UserRequestView::GrantSudo { name: u.name@ },
    }
}

/// The requests of the tasks of the first `n` users, in order.
pub open spec fn requests_upto(users: Seq<User>, n: nat) -> Seq<UserRequestView>
    decreases n,
{
    if n == 0 {
        Seq::empty()
    } else {
        requests_upto(users, (n - 1) as nat) + tasks_of(n - 1, users[n - 1]).map_values(
            |t: UserTask| request_of(users[n - 1], t.kind),
        )
    }
}

/// The requests of configuring all users: each task of [`user_tasks`] with
/// the request it makes for its user.
pub open spec fn user_requests(users: Seq<User>) -> Seq<UserRequestView> {
    requests_upto(users, users.len())
}

/// The requests are the tasks of [`user_tasks`], each with the request it
/// makes for the user it names.
pub proof fn law_requests_follow_tasks(users: Seq<User>)
    requires
        users.len() <= usize::MAX,
    ensures
        user_requests(users).len() == user_tasks(users).len(),
        forall|j: int|
            0 <= j < user_tasks(users).len() ==> #[trigger] user_requests(users)[j] == request_of(
                users[user_tasks(users)[j].user as int],
                user_tasks(users)[j].kind,
            ),
{
    lemma_requests_upto(users, users.len());
}

proof fn lemma_requests_upto(users: Seq<User>, n: nat)
    requires
        n <= users.len() <= usize::MAX,
    ensures
        requests_upto(users, n).len() == tasks_upto(users, n).len(),
        forall|j: int|
            0 <= j < tasks_upto(users, n).len() ==> #[trigger] requests_upto(users, n)[j] == request_of(
                users[tasks_upto(users, n)[j].user as int],
                tasks_upto(users, n)[j].kind,
            ),
    decreases n,
{
    if n > 0 {
        lemma_requests_upto(users, (n - 1) as nat);
        let a = tasks_upto(users, (n - 1) as nat);
        let b = tasks_of(n - 1, users[n - 1]);
        let ra = requests_upto(users, (n - 1) as nat);
        let rb = b.map_values(|t: UserTask| request_of(users[n - 1], t.kind));
        assert forall|j: int| 0 <= j < (a + b).len() implies #[trigger] (ra + rb)[j] == request_of(
            users[(a + b)[j].user as int],
            (a + b)[j].kind,
        ) by {
            if j >= a.len() {
                assert((a + b)[j] == b[j - a.len()]);
                assert(b[j - a.len()].user == (n - 1) as usize);
                assert(((n - 1) as usize) as int == n - 1);
            }
        }
    }
}

proof fn lemma_tasks_upto_has(users: Seq<User>, n: nat, i: int, kind: UserTaskKind)
    requires
        0 <= i < n <= users.len() <= usize::MAX,
        kind != UserTaskKind::GrantSudo,
    ensures
        tasks_upto(users, n).contains(UserTask { user: i as usize, kind }),
    decreases n,
{
    let t = UserTask { user: i as usize, kind };
    let a = tasks_upto(users, (n - 1) as nat);
    let b = tasks_of(n - 1, users[n - 1]);
    assert(tasks_upto(users, n) == a + b);
    if i < n - 1 {
        lemma_tasks_upto_has(users, (n - 1) as nat, i, kind);
        let j = choose|j: int| 0 <= j < a.len() && a[j] == t;
        assert((a + b)[j] == t);
    } else {
        let k: int = match kind {
            UserTaskKind::CreateAccount => 0,
            UserTaskKind::InstallKeys => 1,
            _ => 2,
        };
        assert(b[k] == t);
        assert((a + b)[a.len() + k] == t);
    }
}

/// Every user gets, in the run over all users, a task that creates its
/// account, one that installs its keys and one that secures its home.
pub proof fn law_every_user_is_configured(users: Seq<User>, i: int)
    requires
        0 <= i < users.len(),
        users.len() <= usize::MAX,
    ensures
        user_tasks(users).contains(UserTask { user: i as usize, kind: UserTaskKind::CreateAccount }),
        user_tasks(users).contains(UserTask { user: i as usize, kind: UserTaskKind::InstallKeys }),
        user_tasks(users).contains(UserTask { user: i as usize, kind: UserTaskKind::SecureHome }),
{
    lemma_tasks_upto_has(users, users.len(), i, UserTaskKind::CreateAccount);
    lemma_tasks_upto_has(users, users.len(), i, UserTaskKind::InstallKeys);
    lemma_tasks_upto_has(users, users.len(), i, UserTaskKind::SecureHome);
}

/// The request at each position of the run names the user of the task at
/// that position and carries that user's data unchanged: account creation
/// asks for the bash shell and all of the user's groups in order, key
/// installation carries all of the user's keys in order, securing the home
/// has keys exactly when the user has at least one, and sudo is only asked
/// for a user that wants it.
pub proof fn law_requests_carry_user_data(users: Seq<User>, j: int)
    requires
        users.len() <= usize::MAX,
        0 <= j < user_tasks(users).len(),
    ensures
        user_tasks(users)[j].user < users.len(),
        ({
            let t = user_tasks(users)[j];
            let u = users[t.user as int];
            match user_requests(users)[j] {
                UserRequestView::CreateAccount { name, shell, groups } => t.kind
                    == UserTaskKind::CreateAccount && name == u.name@ && shell == "/bin/bash"@
                    && groups.len() == u.groups@.len() && forall|k: int|
                    0 <= k < groups.len() ==> #[trigger] groups[k] == u.groups@[k]@,
                UserRequestView::InstallKeys { name, keys } => t.kind == UserTaskKind::InstallKeys
                    && name == u.name@ && keys.len() == u.ssh_authorized_keys@.len() && forall|k: int|
                    0 <= k < keys.len() ==> #[trigger] keys[k] == u.ssh_authorized_keys@[k]@,
                UserRequestView::SecureHome { name, has_keys } => t.kind == UserTaskKind::SecureHome
                    && name == u.name@ && has_keys == (u.ssh_authorized_keys@.len() > 0),
                UserRequestView::GrantSudo { name } => t.kind == UserTaskKind::GrantSudo && name
                    == u.name@ && u.sudo,
            }
        }),
{
    lemma_tasks_upto_users(users, users.len());
    law_requests_follow_tasks(users);
    let t = user_tasks(users)[j];
    assert(user_tasks(users)[j].user < users.len());
    let u = users[t.user as int];
    assert(user_requests(users)[j] == request_of(u, t.kind));
    if t.kind == UserTaskKind::GrantSudo {
        law_sudo_only_when_asked(users, t.user as int);
        assert(user_tasks(users)[j] == UserTask { user: (t.user as int) as usize, kind: UserTaskKind::GrantSudo });
        assert(user_tasks(users).contains(UserTask { user: (t.user as int) as usize, kind: UserTaskKind::GrantSudo }));
    }
    assert(paths::BASH_PATH@ == "/bin/bash"@);
}

fn user_request(u: &User, kind: UserTaskKind) -> (r: UserRequest)
    ensures
        r@ == request_of(*u, kind),
{
    match kind {
        UserTaskKind::CreateAccount => UserRequest::CreateAccount {
            name: u.name.clone(),
            shell: String::from_str(paths::BASH_PATH),
            groups: copy_strings(&u.groups),
        },
        UserTaskKind::InstallKeys => UserRequest::InstallKeys {
            name: u.name.clone(),
            keys: copy_strings(&u.ssh_authorized_keys),
        },
        UserTaskKind::SecureHome => UserRequest::SecureHome {
            name: u.name.clone(),
            has_keys: u.ssh_authorized_keys.len() > 0,
        },
        UserTaskKind::GrantSudo => UserRequest::GrantSudo { name: u.name.clone() },
    }
}

fn request_plan(users: &Vec<User>) -> (plan: Vec<UserRequest>)
    ensures
        plan@.map_values(|r: UserRequest| r@) == user_requests(users@),
{
    let mut plan: Vec<UserRequest> = Vec::new();
    let mut i: usize = 0;
    while i < users.len()
        invariant
            i <= users.len(),
            plan@.map_values(|r: UserRequest| r@) == requests_upto(users@, i as nat),
        decreases users.len() - i,
    {
        let ghost before = plan@.map_values(|r: UserRequest| r@);
        let u = &users[i];
        plan.push(user_request(u, UserTaskKind::CreateAccount));
        plan.push(user_request(u, UserTaskKind::InstallKeys));
        plan.push(user_request(u, UserTaskKind::SecureHome));
        if u.sudo {
            plan.push(user_request(u, UserTaskKind::GrantSudo));
        }
        assert(plan@.map_values(|r: UserRequest| r@) =~= before + tasks_of(i as int, users@[i as int]).map_values(
            |t: UserTask| request_of(users@[i as int], t.kind),
        ));
        i = i + 1;
    }
    plan
}

/// A driver step with the request taken by its view.
pub open spec fn request_step_view(s: Step<UserRequest>) -> Step<UserRequestView> {
    match s {
        Step::Perform(r) => Step::Perform(r@),
        Step::Finished(r) => Step::Finished(r),
    }
}

/// The next request of configuring the users, once `completed` requests
/// have succeeded and the last report was `last`: the requests of
/// [`user_requests`] run user by user in order (create the account with
/// the bash shell and the user's groups, install the user's keys, secure
/// the home with the SSH files when the user has keys, and grant sudo if
/// asked), and the first failure ends the run with that failure.
pub fn apply(users: &Vec<User>, completed: usize, last: Option<Result<(), HeroError>>) -> (s: Step<
    UserRequest,
>)
    ensures
        request_step_view(s) == next_step(user_requests(users@), completed as nat, last),
{
    let plan = request_plan(users);
    let ghost pv = plan@;
    let ghost report = last;
    let s = drive(plan, completed, last);
    proof {
        match report {
            Some(Err(_)) => {},
            _ => {
                if completed < pv.len() {
                    assert(pv.map_values(|r: UserRequest| r@)[completed as int] == pv[completed as int]@);
                }
            },
        }
    }
    s
}

} // verus!
