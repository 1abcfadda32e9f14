//! Account creation on the installed target, as a list of actions the caller
//! carries out inside the target's chroot.
use vstd::prelude::*;

use crate::manifest::accounts::in_wheel;
use crate::manifest::settings::{shell_path, username_text};
use crate::manifest::{Password, User};
use crate::text::{join, join_strings, push_str, string_of, sviews};

verus! {

/// One thing to do while setting up accounts. The actions run in order;
/// none after a `Refuse` runs.
#[derive(Debug, Clone, PartialEq, Eq)]
pub enum UserAction {
    /// `chroot <target> <args..>`.
    Chroot { args: Vec<String> },
    /// Feed `name:secret` to `chpasswd` inside the target (`-e` when the
    /// secret is already hashed).
    SetPassword { name: String, secret: String, hashed: bool },
    /// Write the sudoers drop-in that lets the `wheel` group use sudo.
    GrantWheelSudo,
    /// The install cannot go on; the message says why.
    Refuse { message: String },
}

/// An action as plain values.
pub enum ActionView {
    Chroot(Seq<Seq<char>>),
    SetPassword(Seq<char>, Seq<char>, bool),
    GrantWheelSudo,
    Refuse(Seq<char>),
}

pub open spec fn action_view(a: UserAction) -> ActionView {
    match a {
        UserAction::Chroot { args } => ActionView::Chroot(sviews(args@)),
        UserAction::SetPassword { name, secret, hashed } => ActionView::SetPassword(name@, secret@, hashed),
        UserAction::GrantWheelSudo => ActionView::GrantWheelSudo,
        UserAction::Refuse { message } => ActionView::Refuse(message@),
    }
}

pub open spec fn action_views(s: Seq<UserAction>) -> Seq<ActionView> {
    s.map_values(|a: UserAction| action_view(a))
}

/// `useradd -m -s <shell> [-G <groups,..>] <name>`.
pub open spec fn useradd_args(u: User) -> Seq<Seq<char>> {
    seq!["useradd"@, "-m"@, "-s"@, shell_path(u.shell)] + (if u.groups@.len() > 0 {
        seq!["-G"@, join(sviews(u.groups@), ","@)]
    } else {
        seq![]
    }) + seq![username_text(u.name)]
}

pub open spec fn prompt_refusal(name: Seq<char>) -> Seq<char> {
    "password for user '"@ + name + "' was not collected before install"@
}

/// How the password is set: locked, hashed or plain through `chpasswd`; a
/// password still to be prompted for stops the install.
pub open spec fn password_row(u: User) -> ActionView {
    let name = username_text(u.name);
    match u.password {
        Password::Locked => ActionView::Chroot(seq!["passwd"@, "-l"@, name]),
        Password::Hashed(h) => ActionView::SetPassword(name, h@, true),
        Password::Plain(p) => ActionView::SetPassword(name, p@, false),
        Password::Prompt => ActionView::Refuse(prompt_refusal(name)),
    }
}

pub open spec fn user_rows(users: Seq<User>) -> Seq<ActionView>
    decreases users.len(),
{
    if users.len() == 0 {
        seq![]
    } else {
        user_rows(users.drop_last()) + seq![
            ActionView::Chroot(useradd_args(users.last())),
            password_row(users.last()),
        ]
    }
}

pub open spec fn any_wheel(users: Seq<User>) -> bool {
    exists|i: int| 0 <= i < users.len() && in_wheel(#[trigger] users[i].groups@)
}

/// Each account created and its password set, sudo for `wheel` when any
/// account is in it, and the root account locked.
pub open spec fn setup_rows(users: Seq<User>) -> Seq<ActionView> {
    user_rows(users) + (if any_wheel(users) {
        seq![ActionView::GrantWheelSudo]
    } else {
        seq![]
    }) + seq![ActionView::Chroot(seq!["passwd"@, "-l"@, "root"@])]
}

fn push_action(out: &mut Vec<UserAction>, a: UserAction)
    ensures
        action_views(final(out)@) == action_views(old(out)@).push(action_view(a)),
{
    let ghost before = action_views(out@);
    out.push(a);
    assert(action_views(out@) =~= before.push(action_view(a)));
}

fn useradd(u: &User) -> (r: UserAction)
    ensures
        action_view(r) == ActionView::Chroot(useradd_args(*u)),
{
    let mut args: Vec<String> = Vec::new();
    args.push("useradd".to_owned());
    args.push("-m".to_owned());
    args.push("-s".to_owned());
    args.push(u.shell.path().to_owned());
    if u.groups.len() > 0 {
        args.push("-G".to_owned());
        args.push(string_of(&join_strings(&u.groups, ",")));
    }
    args.push(u.name.as_str().to_owned());
    assert(sviews(args@) =~= useradd_args(*u));
    UserAction::Chroot { args }
}

fn password_action(u: &User) -> (r: UserAction)
    ensures
        action_view(r) == password_row(*u),
{
    let name = u.name.as_str();
    match &u.password {
        Password::Locked => {
            let mut args: Vec<String> = Vec::new();
            args.push("passwd".to_owned());
            args.push("-l".to_owned());
            args.push(name.to_owned());
            assert(sviews(args@) =~= seq!["passwd"@, "-l"@, name@]);
            UserAction::Chroot { args }
        },
        Password::Hashed(h) => UserAction::SetPassword {
            name: name.to_owned(),
            secret: h.clone(),
            hashed: true,
        },
        Password::Plain(p) => UserAction::SetPassword {
            name: name.to_owned(),
            secret: p.clone(),
            hashed: false,
        },
        Password::Prompt => {
            let mut v: Vec<char> = Vec::new();
            push_str(&mut v, "password for user '");
            push_str(&mut v, name);
            push_str(&mut v, "' was not collected before install");
            UserAction::Refuse { message: string_of(&v) }
        },
    }
}

/// The actions that create the manifest's accounts on the target.
pub fn user_setup_actions(users: &Vec<User>) -> (r: Vec<UserAction>)
    ensures
        action_views(r@) == setup_rows(users@),
{
    let mut out: Vec<UserAction> = Vec::new();
    let mut wheel = false;
    let mut i: usize = 0;
    assert(action_views(out@) =~= user_rows(users@.subrange(0, 0)));
    while i < users.len()
        invariant
            i <= users.len(),
            action_views(out@) == user_rows(users@.subrange(0, i as int)),
            wheel == any_wheel(users@.subrange(0, i as int)),
        decreases users.len() - i,
    {
        let ghost pre = users@.subrange(0, i as int);
        let ghost next = users@.subrange(0, i + 1);
        let u = &users[i];
        push_action(&mut out, useradd(u));
        push_action(&mut out, password_action(u));
        let w = u.is_wheel();
        proof {
            assert(next.drop_last() =~= pre);
            assert(next.last() == *u);
            if w {
                assert(next[i as int] == *u);
            }
            if any_wheel(next) {
                let k = choose|k: int| 0 <= k < next.len() && in_wheel(#[trigger] next[k].groups@);
                if k < i {
                    assert(pre[k] == next[k]);
                }
            }
            if any_wheel(pre) {
                let k = choose|k: int| 0 <= k < pre.len() && in_wheel(#[trigger] pre[k].groups@);
                assert(next[k] == pre[k]);
            }
        }
        wheel = wheel || w;
        i = i + 1;
    }
    assert(users@.subrange(0, users.len() as int) =~= users@);
    if wheel {
        push_action(&mut out, UserAction::GrantWheelSudo);
    }
    let mut args: Vec<String> = Vec::new();
    args.push("passwd".to_owned());
    args.push("-l".to_owned());
    args.push("root".to_owned());
    assert(sviews(args@) =~= seq!["passwd"@, "-l"@, "root"@]);
    push_action(&mut out, UserAction::Chroot { args });
    assert(action_views(out@) =~= setup_rows(users@));
    out
}

} // verus!
