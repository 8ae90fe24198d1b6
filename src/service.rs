//! Well-known service names for ports.
use vstd::prelude::*;

verus! {

/// The name of the service usually found on `port`, or `?`.
pub open spec fn service_label(port: u16) -> Seq<char> {
    if port == 21 {
        "ftp"@
    } else if port == 22 {
        "ssh"@
    } else if port == 23 {
        "telnet"@
    } else if port == 25 {
        "smtp"@
    } else if port == 53 {
        "dns"@
    } else if port == 80 {
        "http"@
    } else if port == 110 {
        "pop3"@
    } else if port == 143 {
        "imap"@
    } else if port == 443 {
        "https"@
    } else if port == 3306 {
        "mysql"@
    } else if port == 5432 {
        "postgres"@
    } else if port == 6379 {
        "redis"@
    } else if port == 8080 {
        "http-alt"@
    } else {
        "?"@
    }
}

/// The name of the service usually found on `port`, or `?`.
pub fn service_name(port: u16) -> (r: &'static str)
    ensures
        r@ == service_label(port),
{
    match port {
        21 => "ftp",
        22 => "ssh",
        23 => "telnet",
        25 => "smtp",
        53 => "dns",
        80 => "http",
        110 => "pop3",
        143 => "imap",
        443 => "https",
        3306 => "mysql",
        5432 => "postgres",
        6379 => "redis",
        8080 => "http-alt",
        _ => "?",
    }
}

} // verus!
