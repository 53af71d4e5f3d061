use vstd::prelude::*;

use crate::dashboard::OS;

verus! {

/// The directory of the snapshots written on a host.
pub open spec fn host_dir(os: OS) -> Seq<char> {
    match os {
        OS::Linux => "linux"@,
        OS::MacOS => "mac"@,
        OS::Windows => "windows"@,
    }
}

pub fn host_dir_name(os: OS) -> (r: &'static str)
    ensures
        r@ == host_dir(os),
{
    match os {
        OS::Linux => "linux",
        OS::MacOS => "mac",
        OS::Windows => "windows",
    }
}

/// The compressed snapshot file of the run of `date` on host `os`.
pub fn data_file_path(os: OS, date: &str) -> (r: String)
    ensures
        r@ == "webapp/public/"@ + host_dir(os) + "/"@ + date@ + "_data.jsonl.gz"@,
{
    let mut r = String::from_str("webapp/public/");
    r.append(host_dir_name(os));
    r.append("/");
    r.append(date);
    r.append("_data.jsonl.gz");
    r
}

/// The copy of the newest snapshot of host `os`.
pub fn latest_file_path(os: OS) -> (r: String)
    ensures
        r@ == "webapp/public/"@ + host_dir(os) + "/latest_data.jsonl.gz"@,
{
    let mut r = String::from_str("webapp/public/");
    r.append(host_dir_name(os));
    r.append("/latest_data.jsonl.gz");
    r
}

/// Relies on chrono's `Local::now` formatted as `%Y-%m-%d`: today's date in
/// the host's zone.
#[verifier::external_body]
fn today() -> String {
    chrono::Local::now().format("%Y-%m-%d").to_string()
}

/// The snapshot file of today's run on host `os`.
pub fn todays_data_file_path(os: OS) -> (r: String)
    ensures
        exists|date: Seq<char>| r@ == "webapp/public/"@ + host_dir(os) + "/"@ + date + "_data.jsonl.gz"@,
{
    let date = today();
    data_file_path(os, date.as_str())
}

} // verus!
