//! What the programs take from their command lines.

use vstd::prelude::*;

verus! {

/// The default rendezvous that a peer registers with.
pub open spec fn default_rendezvous() -> Seq<char> {
    "127.0.0.1:7777"@
}

/// The default address a rendezvous listens on.
pub open spec fn default_listen_address() -> Seq<char> {
    "0.0.0.0:7777"@
}

/// The default UDP server that the NAT observation client talks to.
pub open spec fn default_observer() -> Seq<char> {
    "127.0.0.1:40000"@
}

/// The program name used when the command line has none.
pub open spec fn default_program_name() -> Seq<char> {
    "hole-punch"@
}

/// The text of argument `i`, or `default` where there are not that many.
pub open spec fn argument_or(args: Seq<String>, i: int, default: Seq<char>) -> Seq<char> {
    if 0 <= i < args.len() {
        args[i]@
    } else {
        default
    }
}

fn argument_or_else(args: &Vec<String>, i: usize, default: &str) -> (s: String)
    ensures
        s@ == argument_or(args@, i as int, default@),
{
    if i < args.len() {
        args[i].clone()
    } else {
        default.to_owned()
    }
}

/// A peer's settings: its id, its room, and the rendezvous to use.
pub struct PeerSettings {
    pub peer_id: String,
    pub room: String,
    pub rendezvous: String,
}

/// Reads `PEER_ID ROOM [RENDEZVOUS]` after the program name. Without an id
/// and a room there are no settings.
pub fn peer_settings(args: &Vec<String>) -> (r: Option<PeerSettings>)
    ensures
        r is None <==> args@.len() < 3,
        r matches Some(s) ==> s.peer_id@ == args@[1]@ && s.room@ == args@[2]@
            && s.rendezvous@ == argument_or(args@, 3, default_rendezvous()),
        r matches Some(s) ==> s.rendezvous@ == (if args@.len() >= 4 {
            args@[3]@
        } else {
            default_rendezvous()
        }),
{
    if args.len() < 3 {
        return None;
    }
    let rendezvous = argument_or_else(args, 3, "127.0.0.1:7777");
    Some(PeerSettings { peer_id: args[1].clone(), room: args[2].clone(), rendezvous })
}

/// Reads the one argument `IP:PORT` of the hole-punching program: `Ok` with
/// it when it is the only argument after the program name, otherwise `Err`
/// with the program name to show in the usage line.
pub fn hole_punch_remote(args: &Vec<String>) -> (r: Result<String, String>)
    ensures
        r is Ok <==> args@.len() == 2,
        r matches Ok(remote) ==> remote@ == args@[1]@,
        r matches Err(program) ==> program@ == argument_or(args@, 0, default_program_name()),
        r matches Err(program) ==> program@ == (if args@.len() >= 1 {
            args@[0]@
        } else {
            default_program_name()
        }),
{
    if args.len() == 2 {
        Ok(args[1].clone())
    } else {
        let program = argument_or_else(args, 0, "hole-punch");
        Err(program)
    }
}

/// The address a rendezvous listens on: the first argument, or
/// `0.0.0.0:7777`.
pub fn listen_address(args: &Vec<String>) -> (s: String)
    ensures
        s@ == argument_or(args@, 1, default_listen_address()),
        s@ == (if args@.len() >= 2 { args@[1]@ } else { default_listen_address() }),
{
    let s = argument_or_else(args, 1, "0.0.0.0:7777");
    s
}

/// The UDP server that the NAT observation client talks to: the first
/// argument, or `127.0.0.1:40000`.
pub fn observer_address(args: &Vec<String>) -> (s: String)
    ensures
        s@ == argument_or(args@, 1, default_observer()),
        s@ == (if args@.len() >= 2 { args@[1]@ } else { default_observer() }),
{
    let s = argument_or_else(args, 1, "127.0.0.1:40000");
    s
}

/// An argument that was given is taken as it is; only a missing one falls
/// back to the default.
pub proof fn law_given_arguments_win(args: Seq<String>, i: int, default: Seq<char>)
    ensures
        0 <= i < args.len() ==> argument_or(args, i, default) == args[i]@,
        !(0 <= i < args.len()) ==> argument_or(args, i, default) == default,
{
}

} // verus!
