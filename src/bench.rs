//! Launch requests for the bench tool's common commands.
use vstd::prelude::*;

use crate::manager::{SpawnRequest, SpawnRequestView};
use crate::process::copy_strings;
use crate::text::strings_view;

verus! {

pub open spec fn digit_char(d: int) -> char {
    seq!['0', '1', '2', '3', '4', '5', '6', '7', '8', '9'][d]
}

/// `n` written in decimal, without leading zeros.
pub open spec fn nat_decimal(n: nat) -> Seq<char>
    decreases n,
{
    if n < 10 {
        seq![digit_char(n as int)]
    } else {
        nat_decimal(n / 10).push(digit_char((n % 10) as int))
    }
}

/// `n` written in decimal, with a minus sign when negative.
pub open spec fn int_decimal(n: int) -> Seq<char> {
    if n < 0 {
        seq!['-'] + nat_decimal((-n) as nat)
    } else {
        nat_decimal(n as nat)
    }
}

/// Relies on `i64`'s `Display`: the number in decimal, with a leading minus
/// sign when negative.
#[verifier::external_body]
pub(crate) fn decimal(n: i64) -> (r: String)
    ensures
        r@ == int_decimal(n as int),
{
    n.to_string()
}

/// Relies on `chrono::Utc::now` and `DateTime::timestamp`: the number of
/// seconds since the Unix epoch, at the moment of the call.
#[verifier::external_body]
pub(crate) fn unix_timestamp() -> (r: i64) {
    chrono::Utc::now().timestamp()
}

/// The id of a bench process launched for `purpose` at `timestamp`.
pub open spec fn bench_id(purpose: Seq<char>, timestamp: int) -> Seq<char> {
    "bench_"@ + purpose + "_"@ + int_decimal(timestamp)
}

/// The id of a bench process launched for `purpose` at `timestamp`.
pub fn bench_process_id(purpose: &str, timestamp: i64) -> (r: String)
    ensures
        r@ == bench_id(purpose@, timestamp as int),
{
    let mut r = "bench_".to_owned();
    r.append(purpose);
    r.append("_");
    let digits = decimal(timestamp);
    r.append(digits.as_str());
    r
}

/// A fresh id for a bench process launched now for `purpose`.
pub fn fresh_process_id(purpose: &str) -> (r: String)
    ensures
        exists|t: i64| r@ == bench_id(purpose@, t as int),
{
    let t = unix_timestamp();
    bench_process_id(purpose, t)
}

/// The request that runs `bench <command> <args...>` in `bench_path`.
pub open spec fn bench_request_spec(
    id: Seq<char>,
    bench_path: Seq<char>,
    command: Seq<char>,
    args: Seq<Seq<char>>,
) -> SpawnRequestView {
    SpawnRequestView {
        id,
        program: "bench"@,
        args: seq![command] + args,
        working_dir: bench_path,
        command: "bench "@ + command,
    }
}

/// The request that runs `bench <command> <args...>` in `bench_path`.
pub fn bench_request(id: String, bench_path: &str, command: &str, args: Vec<String>) -> (r:
    SpawnRequest)
    ensures
        r@ == bench_request_spec(id@, bench_path@, command@, strings_view(args@)),
{
    let mut cmd_args: Vec<String> = Vec::new();
    cmd_args.push(command.to_owned());
    let mut i: usize = 0;
    while i < args.len()
        invariant
            i <= args@.len(),
            strings_view(cmd_args@) == seq![command@] + strings_view(args@.subrange(0, i as int)),
        decreases args@.len() - i,
    {
        let ghost before = cmd_args@;
        cmd_args.push(args[i].clone());
        assert(strings_view(cmd_args@) =~= strings_view(before).push(args@[i as int]@));
        assert(strings_view(args@.subrange(0, i + 1)) =~= strings_view(
            args@.subrange(0, i as int),
        ).push(args@[i as int]@));
        i = i + 1;
    }
    assert(args@.subrange(0, args@.len() as int) =~= args@);
    let mut display = "bench ".to_owned();
    display.append(command);
    SpawnRequest {
        id,
        program: "bench".to_owned(),
        args: cmd_args,
        working_dir: bench_path.to_owned(),
        command: display,
    }
}

/// The request that runs `command <args...>` in `working_dir`.
pub fn simple_request(id: String, working_dir: &str, command: &str, args: Vec<String>) -> (r:
    SpawnRequest)
    ensures
        r@ == (SpawnRequestView {
            id: id@,
            program: command@,
            args: strings_view(args@),
            working_dir: working_dir@,
            command: command@,
        }),
{
    let args = copy_strings(&args);
    SpawnRequest {
        id,
        program: command.to_owned(),
        args,
        working_dir: working_dir.to_owned(),
        command: command.to_owned(),
    }
}

/// `bench start`: the development server.
pub fn dev_server_request(id: String, bench_path: &str) -> (r: SpawnRequest)
    ensures
        r@ == bench_request_spec(id@, bench_path@, "start"@, seq![]),
{
    let r = bench_request(id, bench_path, "start", Vec::new());
    assert(strings_view(Seq::<String>::empty()) =~= Seq::<Seq<char>>::empty());
    r
}

/// `bench build`.
pub fn build_request(id: String, bench_path: &str) -> (r: SpawnRequest)
    ensures
        r@ == bench_request_spec(id@, bench_path@, "build"@, seq![]),
{
    let r = bench_request(id, bench_path, "build", Vec::new());
    assert(strings_view(Seq::<String>::empty()) =~= Seq::<Seq<char>>::empty());
    r
}

/// `bench migrate`, on `site` when one is given.
pub fn migrate_request(id: String, bench_path: &str, site: Option<&str>) -> (r: SpawnRequest)
    ensures
        r@ == bench_request_spec(
            id@,
            bench_path@,
            "migrate"@,
            match site {
                Some(s) => seq!["--site"@, s@, "migrate"@],
                None => seq!["migrate"@],
            },
        ),
{
    let mut args: Vec<String> = Vec::new();
    match site {
        Some(s) => {
            args.push("--site".to_owned());
            args.push(s.to_owned());
        },
        None => {},
    }
    args.push("migrate".to_owned());
    let ghost expected = match site {
        Some(s) => seq!["--site"@, s@, "migrate"@],
        None => seq!["migrate"@],
    };
    assert(strings_view(args@) =~= expected);
    bench_request(id, bench_path, "migrate", args)
}

/// `bench <command> <arg>`.
fn one_arg_request(id: String, bench_path: &str, command: &str, arg: &str) -> (r: SpawnRequest)
    ensures
        r@ == bench_request_spec(id@, bench_path@, command@, seq![arg@]),
{
    let mut args: Vec<String> = Vec::new();
    args.push(arg.to_owned());
    assert(strings_view(args@) =~= seq![arg@]);
    bench_request(id, bench_path, command, args)
}

/// `bench <command> --site <site>`.
fn site_request(id: String, bench_path: &str, command: &str, site: &str) -> (r: SpawnRequest)
    ensures
        r@ == bench_request_spec(id@, bench_path@, command@, seq!["--site"@, site@]),
{
    let mut args: Vec<String> = Vec::new();
    args.push("--site".to_owned());
    args.push(site.to_owned());
    assert(strings_view(args@) =~= seq!["--site"@, site@]);
    bench_request(id, bench_path, command, args)
}

/// `bench new-app <app_name>`.
pub fn new_app_request(id: String, bench_path: &str, app_name: &str) -> (r: SpawnRequest)
    ensures
        r@ == bench_request_spec(id@, bench_path@, "new-app"@, seq![app_name@]),
{
    one_arg_request(id, bench_path, "new-app", app_name)
}

/// `bench new-site <site_name>`.
pub fn new_site_request(id: String, bench_path: &str, site_name: &str) -> (r: SpawnRequest)
    ensures
        r@ == bench_request_spec(id@, bench_path@, "new-site"@, seq![site_name@]),
{
    one_arg_request(id, bench_path, "new-site", site_name)
}

/// `bench console --site <site>`.
pub fn console_request(id: String, bench_path: &str, site: &str) -> (r: SpawnRequest)
    ensures
        r@ == bench_request_spec(id@, bench_path@, "console"@, seq!["--site"@, site@]),
{
    site_request(id, bench_path, "console", site)
}

/// `bench mariadb --site <site>`.
pub fn mariadb_request(id: String, bench_path: &str, site: &str) -> (r: SpawnRequest)
    ensures
        r@ == bench_request_spec(id@, bench_path@, "mariadb"@, seq!["--site"@, site@]),
{
    site_request(id, bench_path, "mariadb", site)
}

} // verus!
