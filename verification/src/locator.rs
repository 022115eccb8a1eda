//! The custom transport's locator inspection: the protocol name, the
//! multicast answer, and the rendering of its link configuration
//! parameters.

use vstd::prelude::*;

verus! {

/// Default access mask for the transport's files.
pub const FILE_ACCESS_MASK_DEFAULT: u32 = 0o777;

/// Decimal digits of `n`, most significant first.
pub open spec fn dec_bytes(n: nat) -> Seq<u8>
    decreases n,
{
    if n < 10 {
        seq![(48 + n) as u8]
    } else {
        dec_bytes(n / 10).push((48 + n % 10) as u8)
    }
}

/// The bytes of the parameter key `file_mask`.
pub open spec fn file_mask_key() -> Seq<u8> {
    seq![102u8, 105u8, 108u8, 101u8, 95u8, 109u8, 97u8, 115u8, 107u8]
}

/// The rendered link parameters: `file_mask=<decimal>` when the mask is
/// set, nothing otherwise.
pub open spec fn params_model(file_access_mask: Option<u32>) -> Seq<u8> {
    match file_access_mask {
        Option::Some(m) => file_mask_key() + seq![61u8] + dec_bytes(m as nat),
        Option::None => Seq::empty(),
    }
}

fn push_dec(n: u32, out: &mut Vec<u8>)
    ensures
        final(out)@ == old(out)@ + dec_bytes(n as nat),
    decreases n,
{
    if n < 10 {
        out.push(48 + n as u8);
        assert(out@ =~= old(out)@ + dec_bytes(n as nat));
    } else {
        push_dec(n / 10, out);
        out.push(48 + (n % 10) as u8);
        assert(out@ =~= old(out)@ + dec_bytes(n as nat));
    }
}

/// Inspects locators of the custom transport family.
#[derive(Default, Clone, Copy, Debug)]
pub struct CustomLocatorInspector;

impl CustomLocatorInspector {
    /// The protocol name of this locator family.
    pub fn protocol(&self) -> (r: &'static str)
        ensures
            r@ == "custom"@,
    {
        "custom"
    }

    /// No locator of this family addresses a multicast group, whatever
    /// the locator says.
    pub fn is_multicast(&self, _locator: &Vec<u8>) -> (r: bool)
        ensures
            r == false,
    {
        false
    }
}

/// Renders the custom transport's section of a configuration as link
/// parameters.
#[derive(Default, Clone, Copy, Debug)]
pub struct CustomConfigurator;

impl CustomConfigurator {
    /// The link parameters for a configuration whose file access mask is
    /// as given: `file_mask=<decimal mask>`, or nothing when unset.
    pub fn inspect_config(&self, file_access_mask: Option<u32>) -> (r: Vec<u8>)
        ensures
            r@ == params_model(file_access_mask),
    {
        match file_access_mask {
            Option::None => {
                let r: Vec<u8> = Vec::new();
                assert(r@ =~= params_model(Option::<u32>::None));
                r
            },
            Option::Some(m) => {
                let mut out: Vec<u8> = Vec::new();
                out.push(102);
                out.push(105);
                out.push(108);
                out.push(101);
                out.push(95);
                out.push(109);
                out.push(97);
                out.push(115);
                out.push(107);
                out.push(61);
                assert(out@ =~= file_mask_key() + seq![61u8]);
                push_dec(m, &mut out);
                assert(out@ =~= params_model(Option::Some(m)));
                out
            },
        }
    }
}

} // verus!
