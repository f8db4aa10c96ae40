//! Section identifiers and the data section read as a whole.
use crate::components::Data;
use crate::decode::{decode_vector, spec_vector, views, DecodeError};
use crate::reader::Reader;
use vstd::prelude::*;

pub use crate::module::SectionId;

verus! {

/// The data segments of a data section.
#[derive(Debug, Clone)]
pub struct DataSection {
    pub datas: Vec<Data>,
}

impl DataSection {
    /// A data section with no segments.
    pub fn new() -> (d: Self)
        ensures
            d.datas@ == Seq::<Data>::empty(),
    {
        DataSection { datas: Vec::new() }
    }

    /// Reads the vector of data segments of a data section.
    pub fn decode(reader: &mut Reader) -> (res: Result<Self, DecodeError>)
        requires
            old(reader).wf(),
        ensures
            final(reader).wf(),
            final(reader).bytes() == old(reader).bytes(),
            match spec_vector::<Data>(old(reader).bytes(), old(reader).pos()) {
                Ok((s, p)) => res matches Ok(d) && views(d.datas@) == s && final(reader).pos() == p,
                Err(e) => res == Err::<DataSection, DecodeError>(e),
            },
    {
        let datas = decode_vector(reader)?;
        Ok(DataSection { datas })
    }
}

} // verus!
