//! The client's settings.
use vstd::prelude::*;

use crate::wire::IpAddress;

verus! {

/// A command-line argument that cannot be used.
pub struct CliArgumentError {
    kind: String,
}

impl CliArgumentError {
    pub closed spec fn kind_spec(&self) -> Seq<char> {
        self.kind@
    }

    pub fn new(msg: &str) -> (r: CliArgumentError)
        ensures
            r.kind_spec() == msg@,
    {
        CliArgumentError { kind: msg.to_owned() }
    }

    /// What is wrong with the argument.
    pub fn kind(&self) -> (r: &str)
        ensures
            r@ == self.kind_spec(),
    {
        self.kind.as_str()
    }
}

/// The value that follows an option, or an error when the arguments ran out.
pub fn value_check(value: Option<&String>) -> (r: Result<&String, CliArgumentError>)
    ensures
        value is Some ==> r == Ok::<&String, CliArgumentError>(value->Some_0),
        value is None ==> r is Err && r->Err_0.kind_spec() == "Miss arguments"@,
{
    match value {
        Some(v) => Ok(v),
        None => {
            let e = CliArgumentError::new("Miss arguments");
            proof {
                reveal_strlit("Miss arguments");
            }
            Err(e)
        },
    }
}

/// The client's settings.
pub struct CliArgs {
    /// Print why a probe failed.
    pub show_error: bool,
    /// Print nothing for failed probes.
    pub quiet: bool,
    /// Seconds between probes.
    pub interval: u8,
    /// Size of the ICMP message to request.
    pub length: u16,
    /// The proxy's UDP port.
    pub port: u16,
    /// Milliseconds to wait for each reply.
    pub timeout: u16,
    /// Probes to send; 0 means no limit.
    pub count: u32,
    /// The proxy's address.
    pub proxy: IpAddress,
    /// The address to probe.
    pub host_addr: IpAddress,
    /// The host as the user named it.
    pub host_name: String,
}

impl CliArgs {
    /// The defaults: one probe a second of 64 bytes, through a proxy at
    /// 127.0.0.1:2000, with a 4 s timeout, until interrupted.
    pub fn new() -> (r: CliArgs)
        ensures
            !r.show_error,
            !r.quiet,
            r.interval == 1,
            r.length == 64,
            r.port == 2000,
            r.timeout == 4000,
            r.count == u32::MAX,
            r.proxy == IpAddress::V4([127u8, 0, 0, 1]),
            r.host_addr == IpAddress::V4([0u8, 0, 0, 0]),
            r.host_name@ == Seq::<char>::empty(),
    {
        CliArgs {
            show_error: false,
            quiet: false,
            interval: 1,
            length: 64,
            port: 2000,
            timeout: 4000,
            count: u32::MAX,
            proxy: IpAddress::V4([127, 0, 0, 1]),
            host_addr: IpAddress::V4([0, 0, 0, 0]),
            host_name: String::new(),
        }
    }
}

} // verus!
