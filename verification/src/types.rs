//! Types shared by the surplus sale and the hamfest table.

use crate::text::{hex_u16, parse_hex_u16};
use vstd::prelude::*;
use vstd::string::{StrSliceExecFns, StringExecFns};

verus! {

/// What a [`Callsign`] holds, as plain text.
pub struct CallsignView {
    pub callsign: Seq<char>,
    pub name: Seq<char>,
}

/// A party to a sale: a callsign and the name of the person behind it.
///
/// The callsign alone says who somebody is. Two values with the same
/// callsign are the same party, whatever names they carry.
pub struct Callsign {
    /// The individual callsign, or if they do not have one allocated, a
    /// callsign-like reference, for example their forename.
    callsign: String,
    /// The individual's name.
    name: String,
}

impl View for Callsign {
    type V = CallsignView;

    closed spec fn view(&self) -> CallsignView {
        CallsignView { callsign: self.callsign@, name: self.name@ }
    }
}

impl Callsign {
    pub fn new(callsign: String, name: String) -> (r: Callsign)
        ensures
            r@.callsign == callsign@,
            r@.name == name@,
    {
        Callsign { callsign, name }
    }

    pub fn callsign(&self) -> (r: &String)
        ensures
            r@ == self@.callsign,
    {
        &self.callsign
    }

    pub fn name(&self) -> (r: &String)
        ensures
            r@ == self@.name,
    {
        &self.name
    }

    pub fn callsign_mut(&mut self) -> (r: &mut String)
        ensures
            r@ == old(self)@.callsign,
            final(self)@.callsign == final(r)@,
            final(self)@.name == old(self)@.name,
    {
        &mut self.callsign
    }

    pub fn name_mut(&mut self) -> (r: &mut String)
        ensures
            r@ == old(self)@.name,
            final(self)@.name == final(r)@,
            final(self)@.callsign == old(self)@.callsign,
    {
        &mut self.name
    }

    pub fn set_callsign(&mut self, val: String) -> (r: &mut Self)
        ensures
            r@.callsign == val@,
            r@.name == old(self)@.name,
            *final(self) == *final(r),
    {
        self.callsign = val;
        self
    }

    pub fn set_name(&mut self, val: String) -> (r: &mut Self)
        ensures
            r@.callsign == old(self)@.callsign,
            r@.name == val@,
            *final(self) == *final(r),
    {
        self.name = val;
        self
    }

    pub fn with_callsign(self, val: String) -> (r: Callsign)
        ensures
            r@.callsign == val@,
            r@.name == self@.name,
    {
        Callsign { callsign: val, name: self.name }
    }

    pub fn with_name(self, val: String) -> (r: Callsign)
        ensures
            r@.callsign == self@.callsign,
            r@.name == val@,
    {
        Callsign { callsign: self.callsign, name: val }
    }

    /// The callsign, a space, and the name.
    pub fn to_text(&self) -> (r: String)
        ensures
            r@ == self@.callsign + seq![' '] + self@.name,
    {
        proof {
            reveal_strlit(" ");
        }
        let r = self.callsign.clone().concat(" ").concat(self.name.as_str());
        assert(" "@ == seq![' ']);
        r
    }
}

impl Clone for Callsign {
    fn clone(&self) -> (r: Callsign)
        ensures
            r@ == self@,
    {
        Callsign { callsign: self.callsign.clone(), name: self.name.clone() }
    }
}

impl Default for Callsign {
    fn default() -> (r: Callsign)
        ensures
            r@.callsign == Seq::<char>::empty(),
            r@.name == Seq::<char>::empty(),
    {
        Callsign { callsign: String::new(), name: String::new() }
    }
}

impl PartialEq for Callsign {
    fn eq(&self, other: &Callsign) -> (r: bool) {
        self.callsign == other.callsign
    }
}

impl Eq for Callsign {

}

impl vstd::std_specs::cmp::PartialEqSpecImpl for Callsign {
    open spec fn obeys_eq_spec() -> bool {
        true
    }

    open spec fn eq_spec(&self, other: &Callsign) -> bool {
        self@.callsign == other@.callsign
    }
}

/// Whether `candidate` is offered to somebody who has typed `typed`: it
/// begins with what they typed and goes on after it.
pub open spec fn completes(candidate: CallsignView, typed: Seq<char>) -> bool {
    typed.is_prefix_of(candidate.callsign) && candidate.callsign != typed
}

/// Whether `known[i]` is the first of `known` that is offered to somebody who
/// has typed `typed`.
pub open spec fn first_completion(known: Seq<Callsign>, typed: Seq<char>, i: int) -> bool {
    &&& 0 <= i < known.len()
    &&& completes(known[i]@, typed)
    &&& forall|j: int| 0 <= j < i ==> !completes(#[trigger] known[j]@, typed)
}

/// Whether `text` begins with `prefix`.
pub fn begins_with(text: &str, prefix: &str) -> (r: bool)
    ensures
        r == prefix@.is_prefix_of(text@),
{
    let wanted = prefix.unicode_len();
    if wanted > text.unicode_len() {
        return false;
    }
    let mut i: usize = 0;
    while i < wanted
        invariant
            i <= wanted == prefix@.len() <= text@.len(),
            forall|j: int| 0 <= j < i ==> prefix@[j] == text@[j],
        decreases wanted - i,
    {
        if prefix.get_char(i) != text.get_char(i) {
            assert(text@.subrange(0, prefix@.len() as int)[i as int] != prefix@[i as int]);
            return false;
        }
        i = i + 1;
    }
    assert(prefix@ =~= text@.subrange(0, prefix@.len() as int));
    true
}

/// The callsign to offer to somebody who is typing one: the first of `known`
/// that begins with what they have typed and goes on after it. Nothing is
/// offered while nothing has been typed or the entry is not in use.
pub fn suggestion<'a>(known: &'a Vec<Callsign>, typed: &Callsign, in_use: bool) -> (r: Option<
    &'a Callsign,
>)
    ensures
        match r {
            Some(offered) => {
                &&& in_use
                &&& typed@.callsign.len() > 0
                &&& exists|i: int| #[trigger]
                    first_completion(known@, typed@.callsign, i) && known@[i]@ == offered@
            },
            None => !in_use || typed@.callsign.len() == 0 || forall|i: int|
                0 <= i < known@.len() ==> !completes(#[trigger] known@[i]@, typed@.callsign),
        },
{
    if typed.callsign.as_str().is_empty() || !in_use {
        return None;
    }
    let mut i: usize = 0;
    while i < known.len()
        invariant
            i <= known@.len(),
            in_use,
            typed@.callsign.len() > 0,
            forall|j: int| 0 <= j < i ==> !completes(#[trigger] known@[j]@, typed@.callsign),
        decreases known@.len() - i,
    {
        if begins_with(known[i].callsign.as_str(), typed.callsign.as_str()) && known[i].callsign
            != typed.callsign {
            assert(first_completion(known@, typed@.callsign, i as int));
            return Some(&known[i]);
        }
        i = i + 1;
    }
    None
}

impl std::hash::Hash for Callsign {
    /// `String::hash` on the callsign alone, so that equal parties hash
    /// alike.
    #[verifier::external_body]
    fn hash<H: std::hash::Hasher>(&self, state: &mut H) {
        self.callsign.hash(state);
    }
}

/// The USB vendor and product numbers of a receipt printer.
#[derive(Clone, Copy, PartialEq, Eq, Structural)]
pub struct ESCPOSDevice(pub u16, pub u16);

impl ESCPOSDevice {
    /// The printer with the vendor and product numbers that `vendor` and
    /// `device` spell in hexadecimal, as a device manager lists them. There
    /// is none unless both can be read.
    pub fn from_hex(vendor: &str, device: &str) -> (r: Option<ESCPOSDevice>)
        ensures
            r == (match (hex_u16(vendor@), hex_u16(device@)) {
                (Some(vendor_id), Some(device_id)) => Some(ESCPOSDevice(vendor_id, device_id)),
                _ => None,
            }),
    {
        match parse_hex_u16(vendor) {
            Some(vendor_id) => match parse_hex_u16(device) {
                Some(device_id) => Some(ESCPOSDevice(vendor_id, device_id)),
                None => None,
            },
            None => None,
        }
    }
}

} // verus!
