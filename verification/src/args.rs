//! Reading the command line: which role a process plays, and the arguments a
//! manager hands to the worker it starts.

use vstd::prelude::*;
use vstd::string::StrSliceExecFns;
use vstd::string::StringExecFns;

verus! {

/// Whether `s` begins with `p`.
pub open spec fn has_prefix(s: Seq<char>, p: Seq<char>) -> bool {
    p.len() <= s.len() && s.take(p.len() as int) == p
}

/// `s` with every leading repetition of a non-empty `p` taken off (an empty `p`
/// takes nothing off).
pub open spec fn strip_all(s: Seq<char>, p: Seq<char>) -> Seq<char>
    decreases s.len(),
{
    if p.len() > 0 && has_prefix(s, p) {
        strip_all(s.skip(p.len() as int), p)
    } else {
        s
    }
}

/// The value an argument gives for the flag `p`: the argument must begin with
/// `p`, and what is left after taking off every leading `p` must be non-empty.
pub open spec fn flag_value(arg: Seq<char>, p: Seq<char>) -> Option<Seq<char>> {
    if has_prefix(arg, p) && strip_all(arg, p).len() > 0 {
        Some(strip_all(arg, p))
    } else {
        None
    }
}

/// The value of the flag `p` given by the last argument that gives one.
pub open spec fn last_flag(args: Seq<Seq<char>>, p: Seq<char>) -> Option<Seq<char>>
    decreases args.len(),
{
    if args.len() == 0 {
        None
    } else {
        match flag_value(args.last(), p) {
            Some(v) => Some(v),
            None => last_flag(args.drop_last(), p),
        }
    }
}

/// The flag that names the channel a worker reports to: `--worker=`.
pub open spec fn worker_flag() -> Seq<char> {
    seq!['-', '-', 'w', 'o', 'r', 'k', 'e', 'r', '=']
}

/// The flag that names the skiddo file of a worker: `--skiddo-file=`.
pub open spec fn skiddo_file_flag() -> Seq<char> {
    seq!['-', '-', 's', 'k', 'i', 'd', 'd', 'o', '-', 'f', 'i', 'l', 'e', '=']
}

/// The role the arguments ask for: `Some((channel, skiddo file))` for a worker,
/// `None` for the manager.
pub open spec fn role_of(args: Seq<Seq<char>>) -> Option<(Seq<char>, Seq<char>)> {
    match last_flag(args, worker_flag()) {
        Some(channel) => match last_flag(args, skiddo_file_flag()) {
            Some(file) => Some((channel, file)),
            None => None,
        },
        None => None,
    }
}

/// The views of a list of strings.
pub open spec fn views(args: Seq<String>) -> Seq<Seq<char>> {
    args.map_values(|s: String| s@)
}

/// The role of a process.
#[derive(Debug, PartialEq, Eq)]
pub enum Role {
    /// Keep the registry of skiddos and serve requests for them.
    Manager,
    /// Run one skiddo, reporting over the named channel.
    Instance { socket: String, skiddo_file: String },
}

/// The characters of `s`.
fn chars_of(s: &str) -> (r: Vec<char>)
    ensures
        r@ == s@,
{
    let n = s.unicode_len();
    let mut r: Vec<char> = Vec::new();
    let mut i: usize = 0;
    while i < n
        invariant
            n == s@.len(),
            0 <= i <= n,
            r@ == s@.take(i as int),
        decreases n - i,
    {
        r.push(s.get_char(i));
        assert(r@ =~= s@.take(i + 1));
        i = i + 1;
    }
    assert(r@ =~= s@);
    r
}

/// Whether `s`, from position `pos` on, begins with `p`.
fn has_prefix_at(s: &Vec<char>, pos: usize, p: &Vec<char>) -> (r: bool)
    requires
        pos <= s.len(),
    ensures
        r == has_prefix(s@.skip(pos as int), p@),
{
    if p.len() > s.len() - pos {
        return false;
    }
    let mut i: usize = 0;
    while i < p.len()
        invariant
            p.len() <= s.len() - pos,
            0 <= i <= p.len(),
            forall|j: int| 0 <= j < i ==> s@[pos + j] == p@[j],
        decreases p.len() - i,
    {
        if s[pos + i] != p[i] {
            assert(s@.skip(pos as int).take(p.len() as int)[i as int] != p@[i as int]);
            return false;
        }
        i = i + 1;
    }
    assert(s@.skip(pos as int).take(p.len() as int) =~= p@);
    true
}

/// The value `arg` gives for the flag `prefix`, if any (see [`flag_value`]).
pub fn flag_value_of(arg: &str, prefix: &str) -> (r: Option<String>)
    ensures
        r is None == flag_value(arg@, prefix@) is None,
        r matches Some(v) ==> flag_value(arg@, prefix@) == Some(v@),
{
    let s = chars_of(arg);
    let p = chars_of(prefix);
    if !has_prefix_at(&s, 0, &p) {
        assert(s@.skip(0) =~= s@);
        return None;
    }
    assert(s@.skip(0) =~= s@);
    let mut pos: usize = 0;
    while p.len() > 0 && has_prefix_at(&s, pos, &p)
        invariant
            pos <= s.len(),
            strip_all(s@, p@) == strip_all(s@.skip(pos as int), p@),
        decreases s.len() - pos,
    {
        assert(s@.skip(pos as int).skip(p.len() as int) =~= s@.skip(pos + p.len()));
        pos = pos + p.len();
    }
    let n = s.len();
    if pos == n {
        assert(s@.skip(pos as int) =~= Seq::<char>::empty());
        return None;
    }
    let rest = arg.substring_char(pos, n);
    assert(rest@ =~= s@.skip(pos as int));
    Some(String::from_str(rest))
}

/// The value of the flag `prefix` given by the last of `args` that gives one
/// (see [`last_flag`]).
pub fn last_flag_value(args: &Vec<String>, prefix: &str) -> (r: Option<String>)
    ensures
        r is None == last_flag(views(args@), prefix@) is None,
        r matches Some(v) ==> last_flag(views(args@), prefix@) == Some(v@),
{
    let mut found: Option<String> = None;
    let mut i: usize = 0;
    while i < args.len()
        invariant
            0 <= i <= args.len(),
            found is None == last_flag(views(args@.take(i as int)), prefix@) is None,
            found matches Some(v) ==> last_flag(views(args@.take(i as int)), prefix@) == Some(v@),
        decreases args.len() - i,
    {
        let value = flag_value_of(args[i].as_str(), prefix);
        proof {
            let next = views(args@.take(i + 1));
            assert(next.drop_last() =~= views(args@.take(i as int)));
            assert(next.last() == args@[i as int]@);
        }
        match value {
            Some(v) => {
                found = Some(v);
            },
            None => {},
        }
        i = i + 1;
    }
    assert(args@.take(args.len() as int) =~= args@);
    found
}

/// The skiddo file named by the arguments, if any.
pub fn skiddo_file_arg(args: &Vec<String>) -> (r: Option<String>)
    ensures
        r is None == last_flag(views(args@), skiddo_file_flag()) is None,
        r matches Some(v) ==> last_flag(views(args@), skiddo_file_flag()) == Some(v@),
{
    let flag = "--skiddo-file=";
    proof {
        reveal_strlit("--skiddo-file=");
        assert(flag@ =~= skiddo_file_flag());
    }
    last_flag_value(args, flag)
}

/// The role that the arguments (those after the program name) ask for: a worker
/// when they name both a channel and a skiddo file, the manager otherwise.
pub fn select_role(args: &Vec<String>) -> (r: Role)
    ensures
        r is Manager == role_of(views(args@)) is None,
        r matches Role::Instance { socket, skiddo_file } ==> role_of(views(args@)) == Some(
            (socket@, skiddo_file@),
        ),
{
    let flag = "--worker=";
    proof {
        reveal_strlit("--worker=");
        assert(flag@ =~= worker_flag());
    }
    match last_flag_value(args, flag) {
        Some(socket) => match skiddo_file_arg(args) {
            Some(skiddo_file) => Role::Instance { socket, skiddo_file },
            None => Role::Manager,
        },
        None => Role::Manager,
    }
}

/// The arguments a manager starts a worker with: the channel to report to and
/// the skiddo file to run.
pub fn worker_args(server_name: &str, skiddo_file: &str) -> (r: Vec<String>)
    ensures
        views(r@) == seq![worker_flag() + server_name@, skiddo_file_flag() + skiddo_file@],
{
    let worker = "--worker=";
    let file = "--skiddo-file=";
    proof {
        reveal_strlit("--worker=");
        reveal_strlit("--skiddo-file=");
        assert(worker@ =~= worker_flag());
        assert(file@ =~= skiddo_file_flag());
    }
    let mut first = String::from_str(worker);
    first.append(server_name);
    let mut second = String::from_str(file);
    second.append(skiddo_file);
    let mut r: Vec<String> = Vec::new();
    r.push(first);
    r.push(second);
    assert(views(r@) =~= seq![worker_flag() + server_name@, skiddo_file_flag() + skiddo_file@]);
    r
}

/// What is left of a flag's value never begins with the flag again.
pub proof fn lemma_strip_all_leaves_no_prefix(s: Seq<char>, p: Seq<char>)
    requires
        p.len() > 0,
    ensures
        !has_prefix(strip_all(s, p), p),
        strip_all(s, p).len() <= s.len(),
    decreases s.len(),
{
    if has_prefix(s, p) {
        lemma_strip_all_leaves_no_prefix(s.skip(p.len() as int), p);
    }
}

/// Prefixing a value that does not itself begin with the flag, and taking the
/// flag back off, gives the value back.
pub proof fn lemma_strip_flag(p: Seq<char>, v: Seq<char>)
    requires
        p.len() > 0,
        !has_prefix(v, p),
    ensures
        has_prefix(p + v, p),
        strip_all(p + v, p) == v,
{
    assert((p + v).take(p.len() as int) =~= p);
    assert((p + v).skip(p.len() as int) =~= v);
    assert(strip_all(v, p) == v);
}

/// Round-trip law: a worker started with [`worker_args`] for a non-empty channel
/// name and skiddo file (neither beginning with its own flag) reads back exactly
/// that channel and that file, whatever program name comes first.
pub proof fn lemma_worker_args_round_trip(server_name: Seq<char>, skiddo_file: Seq<char>)
    requires
        server_name.len() > 0,
        skiddo_file.len() > 0,
        !has_prefix(server_name, worker_flag()),
        !has_prefix(skiddo_file, skiddo_file_flag()),
    ensures
        role_of(seq![worker_flag() + server_name, skiddo_file_flag() + skiddo_file]) == Some(
            (server_name, skiddo_file),
        ),
{
    let a = worker_flag() + server_name;
    let b = skiddo_file_flag() + skiddo_file;
    let args = seq![a, b];
    lemma_strip_flag(worker_flag(), server_name);
    lemma_strip_flag(skiddo_file_flag(), skiddo_file);
    assert(!has_prefix(b, worker_flag())) by {
        assert(b[2] == 's');
        assert(b.take(worker_flag().len() as int)[2] == 's');
    }
    assert(!has_prefix(a, skiddo_file_flag())) by {
        if skiddo_file_flag().len() <= a.len() {
            assert(a[2] == 'w');
            assert(a.take(skiddo_file_flag().len() as int)[2] == 'w');
        }
    }
    assert(args.last() == b);
    assert(args.drop_last() =~= seq![a]);
    assert(seq![a].last() == a);
    assert(flag_value(a, worker_flag()) == Some(server_name));
    assert(flag_value(b, skiddo_file_flag()) == Some(skiddo_file));
    assert(flag_value(b, worker_flag()) is None);
    assert(last_flag(seq![a], worker_flag()) == Some(server_name));
    assert(last_flag(args, worker_flag()) == Some(server_name));
    assert(last_flag(args, skiddo_file_flag()) == Some(skiddo_file));
}

} // verus!
