//! Fitting a palette to an index width.

use crate::error::CapacityError;
use vstd::prelude::*;

verus! {

/// The number of bits that a pixel takes in the output.
#[derive(Debug, Clone, Copy, PartialEq, Eq, Structural)]
pub enum IndexWidth {
    /// 4-bit palette indices.
    U4,
    /// 8-bit palette indices.
    U8,
    /// 16-bit direct colour: each pixel is its colour word, and no palette
    /// is shared.
    U16,
}

impl IndexWidth {
    /// The number of palette entries that the width can address: 16 for
    /// 4 bits, 256 for 8 bits. Direct colour sets no limit.
    pub open spec fn capacity(self) -> Option<int> {
        match self {
            IndexWidth::U4 => Some(16),
            IndexWidth::U8 => Some(256),
            IndexWidth::U16 => None,
        }
    }

    /// A palette of `colours` entries can be addressed at this width.
    pub open spec fn admits(self, colours: int) -> bool {
        match self.capacity() {
            Some(limit) => colours <= limit,
            None => true,
        }
    }
}

/// Checks that a palette fits the index width. It fails if the palette has
/// more than 16 colours at 4 bits, or more than 256 at 8 bits, and reports
/// both numbers.
pub fn validate(palette: &Vec<u16>, width: IndexWidth) -> (result: Result<(), CapacityError>)
    ensures
        result is Ok <==> width.admits(palette@.len() as int),
        result matches Err(e) ==> e.actual == palette@.len() && width.capacity() == Some(
            e.maximum as int,
        ),
{
    let maximum: usize = match width {
        IndexWidth::U4 => 16,
        IndexWidth::U8 => 256,
        IndexWidth::U16 => {
            return Ok(());
        },
    };
    if palette.len() > maximum {
        Err(CapacityError { actual: palette.len(), maximum })
    } else {
        Ok(())
    }
}

/// The index buffer as bytes: each index cut to its low eight bits, which
/// loses nothing of an index below 256.
pub open spec fn index_bytes(data: Seq<u16>) -> Seq<u8> {
    data.map_values(|i: u16| (i % 256) as u8)
}

/// The index buffer as bytes, for a palette of at most 256 colours: each
/// index keeps its value.
pub fn narrow(data: &Vec<u16>) -> (bytes: Vec<u8>)
    requires
        forall|i: int| 0 <= i < data@.len() ==> data@[i] < 256,
    ensures
        bytes@ == index_bytes(data@),
        forall|i: int| 0 <= i < data@.len() ==> bytes@[i] == data@[i],
{
    let mut bytes: Vec<u8> = Vec::with_capacity(data.len());
    let mut i: usize = 0;
    while i < data.len()
        invariant
            i <= data@.len(),
            bytes@.len() == i,
            forall|k: int| 0 <= k < data@.len() ==> data@[k] < 256,
            forall|k: int| 0 <= k < i ==> bytes@[k] == data@[k],
        decreases data@.len() - i,
    {
        bytes.push(data[i] as u8);
        i += 1;
    }
    assert(bytes@ =~= index_bytes(data@));
    bytes
}

} // verus!
