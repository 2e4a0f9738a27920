//! What the dock announces over mDNS / Bonjour for the Elgato software.

use vstd::prelude::*;
use vstd::string::StringExecFns;

use crate::dock::{spec_to_lowercase, str_to_lowercase};

verus! {

/// The service type the dock registers.
pub open spec fn elgato_service_type() -> Seq<char> {
    "_elg._tcp.local."@
}

/// The mDNS service record of a dock.
pub struct MdnsRecord {
    pub service_type: String,
    pub instance_name: String,
    pub host_name: String,
    pub port: u16,
    pub properties: Vec<(String, String)>,
}

/// The TXT properties of a dock: device type 215, serial, firmware, vendor id
/// 4057 and product id 65535.
pub open spec fn txt_properties_hold(p: Seq<(String, String)>, serial: Seq<char>, firmware: Seq<char>) -> bool {
    &&& p.len() == 5
    &&& p[0].0@ == "dt"@ && p[0].1@ == "215"@
    &&& p[1].0@ == "sn"@ && p[1].1@ == serial
    &&& p[2].0@ == "fw"@ && p[2].1@ == firmware
    &&& p[3].0@ == "vid"@ && p[3].1@ == "4057"@
    &&& p[4].0@ == "pid"@ && p[4].1@ == "65535"@
}

/// The record a dock with `serial` and `firmware` announces on `port`: the
/// instance "Elgato Network Dock <serial>" on host "<serial in lower case>.local.".
pub fn dock_service_record(serial: &str, firmware: &str, port: u16) -> (r: MdnsRecord)
    ensures
        r.service_type@ == elgato_service_type(),
        r.instance_name@ == "Elgato Network Dock "@ + serial@,
        r.host_name@ == spec_to_lowercase(serial@) + ".local."@,
        r.port == port,
        txt_properties_hold(r.properties@, serial@, firmware@),
{
    let mut instance_name = "Elgato Network Dock ".to_owned();
    instance_name.append(serial);
    let mut host_name = str_to_lowercase(serial);
    host_name.append(".local.");
    let mut properties: Vec<(String, String)> = Vec::new();
    properties.push(("dt".to_owned(), "215".to_owned()));
    properties.push(("sn".to_owned(), serial.to_owned()));
    properties.push(("fw".to_owned(), firmware.to_owned()));
    properties.push(("vid".to_owned(), "4057".to_owned()));
    properties.push(("pid".to_owned(), "65535".to_owned()));
    MdnsRecord {
        service_type: "_elg._tcp.local.".to_owned(),
        instance_name,
        host_name,
        port,
        properties,
    }
}

} // verus!
