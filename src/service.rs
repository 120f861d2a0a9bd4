use vstd::prelude::*;

verus! {

/// The name of the service when none is configured.
pub fn default_service_name() -> (r: String)
    ensures
        r@ == "zooming-kittens"@,
{
    String::from_str("zooming-kittens")
}

/// The user unit that runs the zoomer from `binary_path` under the name
/// `service_name`, restarted whenever it stops.
pub open spec fn unit_text(service_name: Seq<char>, binary_path: Seq<char>) -> Seq<char> {
    "[Unit]\nDescription="@ + service_name + " Focus Tracker\nAfter=niri.target\nWants=niri.target\n\n[Service]\nType=simple\nExecStart="@
        + binary_path + "\nEnvironment=RUST_BACKTRACE=full\nRestart=always\n\n[Install]\nWantedBy=default.target\n"@
}

pub fn systemd_unit(service_name: &str, binary_path: &str) -> (r: String)
    ensures
        r@ == unit_text(service_name@, binary_path@),
{
    let mut out = String::from_str("[Unit]\nDescription=");
    out.append(service_name);
    out.append(" Focus Tracker\nAfter=niri.target\nWants=niri.target\n\n[Service]\nType=simple\nExecStart=");
    out.append(binary_path);
    out.append("\nEnvironment=RUST_BACKTRACE=full\nRestart=always\n\n[Install]\nWantedBy=default.target\n");
    out
}

} // verus!
