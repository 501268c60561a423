//! Documents opened in the desktop viewer and the bytes printed for them.

use vstd::prelude::*;
use crate::codepage::{text_job, text_job_bytes};
use crate::raster::{esc_init, gs_v0_bytes, raster, two_feeds, Raster};

verus! {

/// A document loaded for printing.
pub enum Document {
    Empty,
    Text(String),
    /// One raster per page, already scaled to the printable width.
    Rasters(Vec<Raster>),
}

/// `GS v 0` command and two line feeds for each page, in order.
pub open spec fn pages_bytes(pages: Seq<Raster>) -> Seq<u8> {
    pages.map_values(|r: Raster| gs_v0_bytes(r@) + two_feeds()).flatten()
}

/// The bytes sent for a document: a text job in character table
/// `code_page`, or `ESC @` followed by every page; nothing for no document.
pub open spec fn document_bytes_spec(doc: Document, code_page: u8) -> Option<Seq<u8>> {
    match doc {
        Document::Empty => None,
        Document::Text(t) => Some(text_job(code_page, t@)),
        Document::Rasters(pages) => Some(esc_init() + pages_bytes(pages@)),
    }
}

/// The bytes to print for a document; `None` when no document is open.
pub fn document_bytes(doc: &Document, code_page: u8) -> (r: Option<Vec<u8>>)
    ensures
        match r {
            Some(b) => document_bytes_spec(*doc, code_page) == Some(b@),
            None => document_bytes_spec(*doc, code_page) is None,
        },
{
    match doc {
        Document::Empty => None,
        Document::Text(t) => Some(text_job_bytes(code_page, t.as_str())),
        Document::Rasters(pages) => {
            let ghost items = pages@.map_values(|r: Raster| gs_v0_bytes(r@) + two_feeds());
            let mut out: Vec<u8> = vec![0x1b, 0x40];
            let mut i: usize = 0;
            while i < pages.len()
                invariant
                    items == pages@.map_values(|r: Raster| gs_v0_bytes(r@) + two_feeds()),
                    i <= pages@.len(),
                    out@ == esc_init() + items.take(i as int).flatten(),
                decreases pages@.len() - i,
            {
                let mut page = raster(&pages[i]);
                page.push(0x0a);
                page.push(0x0a);
                proof {
                    let prev = items.take(i as int);
                    assert(page@ =~= items[i as int]);
                    assert(items.take(i + 1) =~= prev.push(page@));
                    prev.lemma_flatten_push(page@);
                }
                out.append(&mut page);
                proof {
                    assert(out@ =~= esc_init() + items.take(i + 1).flatten());
                }
                i = i + 1;
            }
            proof {
                assert(items.take(pages@.len() as int) =~= items);
            }
            Some(out)
        },
    }
}

} // verus!
