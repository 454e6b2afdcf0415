use vstd::prelude::*;

use crate::config::{texts, Target};
use crate::number::{signed_decimal, signed_decimal_string};
use crate::text::{chars_of, push_str, string_of_range, trim, trim_end, trim_end_to, trim_range};

verus! {

/// What a running rebuild reports.
pub enum BuildEvent {
    /// One line of the rebuild's output, without trailing white space.
    Line(String),
    /// The rebuild ended: `Ok` when it succeeded, else why it failed.
    Finished(Result<(), String>),
    /// The rebuild was stopped on request.
    Cancelled,
}

/// The event for one line of the rebuild's output.
pub fn output_line(line: &str) -> (e: BuildEvent)
    ensures
        e matches BuildEvent::Line(l) && l@ == trim_end(line@),
{
    let v = chars_of(line);
    let b = trim_end_to(&v, 0, v.len());
    assert(v@.subrange(0, v.len() as int) =~= v@);
    BuildEvent::Line(string_of_range(&v, 0, b))
}

/// How a rebuild that was not cancelled failed.
pub open spec fn failure_text(command_name: Seq<char>, code: Option<i32>) -> Seq<char> {
    command_name + " exited with status "@ + match code {
        Some(c) => signed_decimal(c as int),
        None => "<signal>"@,
    }
}

/// The event that ends a rebuild: `Cancelled` when it was stopped on
/// request, else `Finished`, failing with the exit code (or `<signal>`) when
/// the command did not succeed.
pub fn finished_event(command_name: &str, cancelled: bool, success: bool, code: Option<i32>) -> (e:
    BuildEvent)
    ensures
        cancelled ==> e is Cancelled,
        !cancelled && success ==> e matches BuildEvent::Finished(Ok(())),
        !cancelled && !success ==> (e matches BuildEvent::Finished(Err(m)) && m@ == failure_text(
            command_name@,
            code,
        )),
{
    if cancelled {
        BuildEvent::Cancelled
    } else if success {
        BuildEvent::Finished(Ok(()))
    } else {
        let mut m = String::from_str(command_name);
        push_str(&mut m, " exited with status ");
        match code {
            Some(c) => {
                let d = signed_decimal_string(c as i64);
                push_str(&mut m, d.as_str());
            },
            None => {
                push_str(&mut m, "<signal>");
            },
        }
        BuildEvent::Finished(Err(m))
    }
}

/// The command and arguments that apply a NixOS configuration:
/// `sudo nixos-rebuild switch --flake <config_dir>#nixos`.
pub fn nixos_rebuild_switch_cmd(config_dir: &str) -> (r: (String, Vec<String>))
    ensures
        r.0@ == "sudo"@,
        texts(r.1@) == seq!["nixos-rebuild"@, "switch"@, "--flake"@, config_dir@ + "#nixos"@],
{
    let mut flake_ref = String::from_str(config_dir);
    push_str(&mut flake_ref, "#nixos");
    let args = vec![
        String::from_str("nixos-rebuild"),
        String::from_str("switch"),
        String::from_str("--flake"),
        flake_ref,
    ];
    assert(texts(args@) =~= seq![
        "nixos-rebuild"@,
        "switch"@,
        "--flake"@,
        config_dir@ + "#nixos"@,
    ]);
    (String::from_str("sudo"), args)
}

/// The command and arguments for `home-manager switch --flake
/// <config_dir>#<user>`: the home-manager binary when one was found, else
/// `nix run nixpkgs#home-manager -- switch ...`.
pub fn home_manager_switch_cmd(config_dir: &str, user: &str, bin: Option<String>) -> (r: (
    String,
    Vec<String>,
))
    ensures
        ({
            let flake_ref = config_dir@ + "#"@ + user@;
            match bin {
                Some(b) => r.0@ == b@ && texts(r.1@) == seq!["switch"@, "--flake"@, flake_ref],
                None => r.0@ == "nix"@ && texts(r.1@) == seq![
                    "run"@,
                    "nixpkgs#home-manager"@,
                    "--"@,
                    "switch"@,
                    "--flake"@,
                    flake_ref,
                ],
            }
        }),
{
    let mut flake_ref = String::from_str(config_dir);
    push_str(&mut flake_ref, "#");
    push_str(&mut flake_ref, user);
    let ghost fr = flake_ref@;
    match bin {
        Some(b) => {
            let args = vec![String::from_str("switch"), String::from_str("--flake"), flake_ref];
            assert(texts(args@) =~= seq!["switch"@, "--flake"@, fr]);
            (b, args)
        },
        None => {
            let args = vec![
                String::from_str("run"),
                String::from_str("nixpkgs#home-manager"),
                String::from_str("--"),
                String::from_str("switch"),
                String::from_str("--flake"),
                flake_ref,
            ];
            assert(texts(args@) =~= seq![
                "run"@,
                "nixpkgs#home-manager"@,
                "--"@,
                "switch"@,
                "--flake"@,
                fr,
            ]);
            (String::from_str("nix"), args)
        },
    }
}

/// Whether a change of target `scope` is applied with `home-manager
/// switch`: only home-manager changes, and only when the flake exposes a
/// standalone `homeConfigurations.<user>` output; otherwise home-manager is
/// wired in as a NixOS module and `nixos-rebuild` applies it.
pub open spec fn uses_home_manager_switch(scope: Target, has_home_configuration: bool) -> bool {
    scope == Target::HomeManager && has_home_configuration
}

/// The rebuild that applies a change of target `scope`: `home-manager
/// switch` when the flake has a standalone home configuration for the
/// user, else `nixos-rebuild switch`.
pub fn switch_command(
    scope: Target,
    has_home_configuration: bool,
    config_dir: &str,
    user: &str,
    bin: Option<String>,
) -> (r: (String, Vec<String>))
    ensures
        ({
            let flake_ref = config_dir@ + "#"@ + user@;
            if uses_home_manager_switch(scope, has_home_configuration) {
                match bin {
                    Some(b) => r.0@ == b@ && texts(r.1@) == seq!["switch"@, "--flake"@, flake_ref],
                    None => r.0@ == "nix"@ && texts(r.1@) == seq![
                        "run"@,
                        "nixpkgs#home-manager"@,
                        "--"@,
                        "switch"@,
                        "--flake"@,
                        flake_ref,
                    ],
                }
            } else {
                r.0@ == "sudo"@ && texts(r.1@) == seq![
                    "nixos-rebuild"@,
                    "switch"@,
                    "--flake"@,
                    config_dir@ + "#nixos"@,
                ]
            }
        }),
        scope == Target::NixosSystem ==> r.0@ == "sudo"@ && texts(r.1@) == seq![
            "nixos-rebuild"@,
            "switch"@,
            "--flake"@,
            config_dir@ + "#nixos"@,
        ],
{
    match scope {
        Target::HomeManager => {
            if has_home_configuration {
                home_manager_switch_cmd(config_dir, user, bin)
            } else {
                nixos_rebuild_switch_cmd(config_dir)
            }
        },
        Target::NixosSystem => nixos_rebuild_switch_cmd(config_dir),
    }
}

/// A NixOS change is always applied with `nixos-rebuild`, whatever the
/// probe for a home configuration says; a home-manager change uses
/// `home-manager switch` exactly when the flake has a standalone home
/// configuration.
pub proof fn law_switch_choice(has_home_configuration: bool)
    ensures
        !uses_home_manager_switch(Target::NixosSystem, has_home_configuration),
        uses_home_manager_switch(Target::HomeManager, has_home_configuration)
            == has_home_configuration,
{
}

/// Where a Nix-installed program called `name` may live, most preferred
/// first.
pub fn nix_profile_candidates(name: &str, home: &str, user: &str) -> (c: Vec<String>)
    ensures
        texts(c@) == seq![
            "/run/wrappers/bin/"@ + name@,
            home@ + "/.nix-profile/bin/"@ + name@,
            "/etc/profiles/per-user/"@ + user@ + "/bin/"@ + name@,
            "/run/current-system/sw/bin/"@ + name@,
            "/nix/var/nix/profiles/default/bin/"@ + name@,
        ],
{
    let mut a = String::from_str("/run/wrappers/bin/");
    push_str(&mut a, name);
    let mut b = String::from_str(home);
    push_str(&mut b, "/.nix-profile/bin/");
    push_str(&mut b, name);
    let mut c = String::from_str("/etc/profiles/per-user/");
    push_str(&mut c, user);
    push_str(&mut c, "/bin/");
    push_str(&mut c, name);
    let mut d = String::from_str("/run/current-system/sw/bin/");
    push_str(&mut d, name);
    let mut e = String::from_str("/nix/var/nix/profiles/default/bin/");
    push_str(&mut e, name);
    let out = vec![a, b, c, d, e];
    assert(texts(out@) =~= seq![
        "/run/wrappers/bin/"@ + name@,
        home@ + "/.nix-profile/bin/"@ + name@,
        "/etc/profiles/per-user/"@ + user@ + "/bin/"@ + name@,
        "/run/current-system/sw/bin/"@ + name@,
        "/nix/var/nix/profiles/default/bin/"@ + name@,
    ]);
    out
}

/// The first candidate that exists, given which ones do.
pub fn first_existing(candidates: Vec<String>, present: &Vec<bool>) -> (r: Option<String>)
    requires
        present.len() == candidates.len(),
    ensures
        match r {
            Some(p) => exists|k: int|
                0 <= k < candidates.len() && present@[k] && #[trigger] candidates@[k] == p
                    && forall|j: int| 0 <= j < k ==> !#[trigger] present@[j],
            None => forall|k: int| 0 <= k < present.len() ==> !#[trigger] present@[k],
        },
{
    let mut i: usize = 0;
    while i < candidates.len()
        invariant
            present.len() == candidates.len(),
            i <= candidates.len(),
            forall|j: int| 0 <= j < i ==> !#[trigger] present@[j],
        decreases candidates.len() - i,
    {
        if present[i] {
            return Some(candidates[i].clone());
        }
        i = i + 1;
    }
    None
}

/// The Nix expression that asks whether the flake at `config_dir` has a
/// `homeConfigurations.<user>` output.
pub fn home_configuration_expr(config_dir: &str, user: &str) -> (e: String)
    ensures
        e@ == "let f = builtins.getFlake \""@ + config_dir@
            + "\"; in f ? homeConfigurations && f.homeConfigurations ? \""@ + user@ + "\""@,
{
    let mut e = String::from_str("let f = builtins.getFlake \"");
    push_str(&mut e, config_dir);
    push_str(&mut e, "\"; in f ? homeConfigurations && f.homeConfigurations ? \"");
    push_str(&mut e, user);
    push_str(&mut e, "\"");
    e
}

/// `std::str::from_utf8`: the text the bytes encode, when they are valid
/// UTF-8.
#[verifier::external_body]
fn utf8_text(bytes: &[u8]) -> (t: Option<&str>)
    ensures
        t is Some <==> vstd::utf8::valid_utf8(bytes@),
        t matches Some(s) ==> s@ == vstd::utf8::decode_utf8(bytes@),
{
    std::str::from_utf8(bytes).ok()
}

/// Whether the evaluation answered `true`: it succeeded and printed `true`,
/// up to surrounding white space, as valid UTF-8.
pub fn evaluation_says_true(success: bool, stdout: &[u8]) -> (b: bool)
    ensures
        b == (success && vstd::utf8::valid_utf8(stdout@) && trim(vstd::utf8::decode_utf8(stdout@))
            == "true"@),
{
    if !success {
        return false;
    }
    match utf8_text(stdout) {
        Some(s) => {
            let v = chars_of(s);
            let (a, b) = trim_range(&v, 0, v.len());
            assert(v@.subrange(0, v.len() as int) =~= v@);
            let want = chars_of("true");
            crate::text::range_eq(&v, a, b, &want)
        },
        None => false,
    }
}

} // verus!
