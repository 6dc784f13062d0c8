//! Symbol metadata of a device.
use vstd::prelude::*;

verus! {

/// One field of a structured type.
#[derive(Clone, Debug)]
pub struct Field {
    /// Name of the field.
    pub name: String,
    /// Name of the type of the field.
    pub typ: String,
    /// Byte offset in the structure, if the field has a place there.
    pub offset: Option<u32>,
    /// Number of bytes.
    pub size: usize,
    /// Bounds of each dimension, if the field is an array.
    pub array: Vec<(i32, i32)>,
    /// ADS number of the primitive base type.
    pub base_type: u32,
    /// Type flags.
    pub flags: u32,
    /// Comment of the field.
    pub comment: String,
}

/// A type that symbols or fields can have.
#[derive(Clone, Debug)]
pub struct Type {
    /// Name of the type.
    pub name: String,
    /// Name of the type that this one is made of.
    pub typ: String,
    /// Comment of the type.
    pub comment: String,
    /// Number of bytes.
    pub size: usize,
    /// Bounds of each dimension, if the type is an array.
    pub array: Vec<(i32, i32)>,
    /// Fields, if the type is structured.
    pub fields: Vec<Field>,
    /// ADS number of the primitive base type.
    pub base_type: u32,
    /// Type flags.
    pub flags: u32,
}

/// The first field with the given name.
pub open spec fn named_field(fields: Seq<Field>, name: Seq<char>) -> Option<Field>
    decreases fields.len(),
{
    if fields.len() == 0 {
        None
    } else if fields[0].name@ == name {
        Some(fields[0])
    } else {
        named_field(fields.skip(1), name)
    }
}

/// The first field with a name is the one that is found; if no field has the
/// name, none is found.
pub proof fn named_field_at(fields: Seq<Field>, name: Seq<char>, i: int)
    requires
        0 <= i <= fields.len(),
        forall|k: int| 0 <= k < i ==> (#[trigger] fields[k]).name@ != name,
        i < fields.len() ==> fields[i].name@ == name,
    ensures
        named_field(fields, name) == if i < fields.len() {
            Some(fields[i])
        } else {
            None
        },
    decreases fields.len(),
{
    if i > 0 {
        assert(fields[0].name@ != name);
        assert forall|k: int| 0 <= k < i - 1 implies (#[trigger] fields.skip(1)[k]).name@
            != name by {
            assert(fields[k + 1].name@ != name);
        }
        named_field_at(fields.skip(1), name, i - 1);
    }
}

/// Finds the first field with the given name.
pub(crate) fn find_field<'a>(fields: &'a Vec<Field>, name: &str) -> (r: Option<&'a Field>)
    ensures
        match r {
            Some(field) => named_field(fields@, name@) == Some(*field),
            None => named_field(fields@, name@) is None,
        },
{
    let wanted: String = name.to_owned();
    let mut i: usize = 0;
    while i < fields.len()
        invariant
            i <= fields@.len(),
            wanted@ == name@,
            forall|k: int| 0 <= k < i ==> (#[trigger] fields@[k]).name@ != name@,
        decreases fields@.len() - i,
    {
        if fields[i].name == wanted {
            proof {
                named_field_at(fields@, name@, i as int);
            }
            return Some(&fields[i]);
        }
        i += 1;
    }
    proof {
        named_field_at(fields@, name@, i as int);
    }
    None
}

} // verus!
