use vstd::prelude::*;
use vstd::string::StringExecFns;

verus! {

/// The connected devices: id, label, kind, whether available. The
/// device probe reports a fixed three-device table.
pub fn get_devices() -> (r: Vec<(String, String, String, bool)>)
    ensures
        r@.len() == 3,
        r@[0].0@ == "dev-001"@ && r@[0].1@ == "Primary Display"@ && r@[0].2@ == "display"@
            && r@[0].3 == true,
        r@[1].0@ == "dev-002"@ && r@[1].1@ == "USB Hub"@ && r@[1].2@ == "usb"@ && r@[1].3 == true,
        r@[2].0@ == "dev-003"@ && r@[2].1@ == "Audio Device"@ && r@[2].2@ == "audio"@ && r@[2].3
            == true,
{
    let mut out: Vec<(String, String, String, bool)> = Vec::new();
    out.push(("dev-001".to_owned(), "Primary Display".to_owned(), "display".to_owned(), true));
    out.push(("dev-002".to_owned(), "USB Hub".to_owned(), "usb".to_owned(), true));
    out.push(("dev-003".to_owned(), "Audio Device".to_owned(), "audio".to_owned(), true));
    out
}

} // verus!
