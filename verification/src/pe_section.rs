//! Section Reader: given a full PE binary buffer and a section name, hand
//! back exactly the declared bytes of that section, or report absence.
//! Absence and malformed content are indistinguishable to callers by design.

use vstd::prelude::*;
use vstd::slice::{slice_subrange, slice_to_vec};
use vstd::utf8::{decode_utf8, valid_utf8};

use crate::pe::{
    first_match_from, headers_wf, n_sections, parse_headers, sect_name, sect_off, sect_rptr,
    sect_vsize, section_name_matches, PeHeaders,
};

verus! {

/// What the Section Reader returns: the declared byte range
/// `[raw pointer, raw pointer + virtual size)` of the first section whose
/// stored name is `name`, if the headers parse and the range lies inside
/// the buffer.
pub open spec fn spec_pe_section(b: Seq<u8>, name: Seq<u8>) -> Option<Seq<u8>> {
    if !headers_wf(b) {
        None
    } else {
        match first_match_from(b, name, 0) {
            None => None,
            Some(k) => if sect_rptr(b, k) + sect_vsize(b, k) <= b.len() {
                Some(b.subrange(sect_rptr(b, k), sect_rptr(b, k) + sect_vsize(b, k)))
            } else {
                None
            },
        }
    }
}

/// The declared bytes of the section named `name`, or `None` if the buffer
/// is not a well-formed PE, no section has that name, or its declared range
/// overruns the buffer.
#[verifier::loop_isolation(false)]
pub fn pe_section(b: &[u8], name: &[u8]) -> (r: Option<Vec<u8>>)
    ensures
        r is Some <==> spec_pe_section(b@, name@) is Some,
        r is Some ==> r->0@ == spec_pe_section(b@, name@)->0,
{
    let len = b.len();
    let h: PeHeaders = match parse_headers(b) {
        None => {
            return None;
        },
        Some(h) => h,
    };
    let mut k: usize = 0;
    while k < h.n_sections
        invariant
            0 <= k <= h.n_sections,
            first_match_from(b@, name@, 0) == first_match_from(b@, name@, k as int),
        decreases h.n_sections - k,
    {
        let off = h.sect_table_off + 40 * k;
        if section_name_matches(b, off, name) {
            assert(sect_name(b@, k as int) == name@);
            assert(first_match_from(b@, name@, k as int) == Some(k as int));
            let vsize = crate::bytes::read_u32(b, off + 8) as usize;
            let rptr = crate::bytes::read_u32(b, off + 20) as usize;
            if vsize > len || rptr > len - vsize {
                return None;
            }
            return Some(slice_to_vec(slice_subrange(b, rptr, rptr + vsize)));
        }
        assert(first_match_from(b@, name@, k as int) == first_match_from(
            b@,
            name@,
            k as int + 1,
        ));
        k += 1;
    }
    None
}

/// Spec of the string-extraction variant: the section bytes interpreted as
/// UTF-8 text.
pub open spec fn spec_pe_section_chars(b: Seq<u8>, name: Seq<u8>) -> Option<Seq<char>> {
    match spec_pe_section(b, name) {
        None => None,
        Some(bytes) => if valid_utf8(bytes) {
            Some(decode_utf8(bytes))
        } else {
            None
        },
    }
}

/// Relies on `core::str::from_utf8`: returns the decoded text exactly when
/// the bytes are valid UTF-8, per its documentation; vstd's UTF-8 model
/// gives the meaning of validity and decoding.
#[verifier::external_body]
fn utf8_to_string(b: &[u8]) -> (r: Option<String>)
    ensures
        r is Some <==> valid_utf8(b@),
        r is Some ==> r->0@ == decode_utf8(b@),
{
    match core::str::from_utf8(b) {
        Ok(s) => Some(s.to_owned()),
        Err(_) => None,
    }
}

/// The section's bytes interpreted as UTF-8 text, or `None` on absence or
/// invalid encoding — deliberately the same answer for both.
pub fn pe_section_as_string(b: &[u8], name: &[u8]) -> (r: Option<String>)
    ensures
        r is Some <==> spec_pe_section_chars(b@, name@) is Some,
        r is Some ==> r->0@ == spec_pe_section_chars(b@, name@)->0,
{
    match pe_section(b, name) {
        None => None,
        Some(bytes) => utf8_to_string(bytes.as_slice()),
    }
}

/// Section Reader law: on a well-formed buffer, each *present* name gets
/// back exactly the bytes the section table declares for its first
/// occurrence, and an *absent* name is reported as such.
pub proof fn law_section_reader_present(b: Seq<u8>, name: Seq<u8>, k: int)
    requires
        headers_wf(b),
        0 <= k < n_sections(b),
        sect_name(b, k) == name,
        forall|j: int| 0 <= j < k ==> sect_name(b, j) != name,
        sect_rptr(b, k) + sect_vsize(b, k) <= b.len(),
    ensures
        spec_pe_section(b, name) == Some(b.subrange(sect_rptr(b, k), sect_rptr(b, k) + sect_vsize(b, k))),
{
    lemma_first_match_is_first(b, name, 0, k);
}

pub proof fn law_section_reader_absent(b: Seq<u8>, name: Seq<u8>)
    requires
        forall|j: int| 0 <= j < n_sections(b) ==> sect_name(b, j) != name,
    ensures
        spec_pe_section(b, name) is None,
{
    lemma_no_match(b, name, 0);
}

proof fn lemma_first_match_is_first(b: Seq<u8>, name: Seq<u8>, i: int, k: int)
    requires
        0 <= i <= k < n_sections(b),
        sect_name(b, k) == name,
        forall|j: int| i <= j < k ==> sect_name(b, j) != name,
    ensures
        first_match_from(b, name, i) == Some(k),
    decreases k - i,
{
    if i < k {
        lemma_first_match_is_first(b, name, i + 1, k);
    }
}

proof fn lemma_no_match(b: Seq<u8>, name: Seq<u8>, i: int)
    requires
        forall|j: int| i <= j < n_sections(b) ==> sect_name(b, j) != name,
    ensures
        first_match_from(b, name, i) is None,
    decreases n_sections(b) - i,
{
    if 0 <= i < n_sections(b) {
        lemma_no_match(b, name, i + 1);
    }
}

} // verus!
