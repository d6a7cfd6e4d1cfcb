//! Mode pages: the device parameters that MODE SENSE reports.
use vstd::prelude::*;

verus! {

/// A mode page this target can report.
#[derive(Debug, PartialEq, Eq, Clone, Copy, Structural)]
pub enum ModePage {
    Caching,
}

/// The payload of the caching page: write-back cache enabled, every
/// prefetch and segment field zero.
pub open spec fn caching_payload() -> Seq<u8> {
    seq![0x04u8, 0, 0, 0, 0, 0, 0, 0, 0, 0, 0, 0, 0, 0, 0, 0, 0, 0]
}

/// A page on the wire: its code, the length of its payload, the payload.
pub open spec fn page_bytes(page: ModePage) -> Seq<u8> {
    match page {
        ModePage::Caching => seq![0x08u8, 0x12u8] + caching_payload(),
    }
}

/// The pages of a list on the wire, one after the other.
pub open spec fn pages_bytes(pages: Seq<ModePage>) -> Seq<u8>
    decreases pages.len(),
{
    if pages.len() == 0 {
        Seq::empty()
    } else {
        pages_bytes(pages.drop_last()) + page_bytes(pages.last())
    }
}

/// Every page that has subpage 0, in the order in which "all pages" lists them.
pub open spec fn all_zero_pages() -> Seq<ModePage> {
    seq![ModePage::Caching]
}

impl ModePage {
    /// Page code and subpage code.
    pub open spec fn code(self) -> (u8, u8) {
        match self {
            ModePage::Caching => (0x08u8, 0u8),
        }
    }

    /// Number of payload bytes, which follow the two-byte page header.
    pub open spec fn length(self) -> u8 {
        match self {
            ModePage::Caching => 0x12u8,
        }
    }

    pub fn page_code(&self) -> (code: (u8, u8))
        ensures
            code == self.code(),
    {
        match self {
            ModePage::Caching => (0x08, 0),
        }
    }

    pub fn page_length(&self) -> (len: u8)
        ensures
            len == self.length(),
            page_bytes(*self).len() == len + 2,
    {
        match self {
            ModePage::Caching => 0x12,
        }
    }

    /// The pages that "all pages, subpage 0" selects.
    pub fn all_zero() -> (pages: Vec<ModePage>)
        ensures
            pages@ == all_zero_pages(),
    {
        let pages = vec![ModePage::Caching];
        assert(pages@ =~= all_zero_pages());
        pages
    }

    /// Appends the page to `out`: code, length, payload.
    pub fn write(&self, out: &mut Vec<u8>)
        ensures
            final(out)@ == old(out)@ + page_bytes(*self),
    {
        let (code, _) = self.page_code();
        out.push(code);
        out.push(self.page_length());
        match self {
            ModePage::Caching => {
                out.push(0x04);
                let mut i: usize = 0;
                while i < 17
                    invariant
                        i <= 17,
                        out@ == old(out)@ + seq![0x08u8, 0x12u8, 0x04u8] + Seq::new(
                            i as nat,
                            |k: int| 0u8,
                        ),
                    decreases 17 - i,
                {
                    out.push(0);
                    i += 1;
                    assert(out@ =~= old(out)@ + seq![0x08u8, 0x12u8, 0x04u8] + Seq::new(
                        i as nat,
                        |k: int| 0u8,
                    ));
                }
                assert(out@ =~= old(out)@ + page_bytes(*self));
            },
        }
    }
}

} // verus!
