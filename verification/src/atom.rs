//! Atoms: an element, a position and an identifier.

use vstd::prelude::*;
use vstd::string::*;
use crate::decimal::{is_fixed, Decimal};
use crate::text::{decimal, decimal_string};

verus! {

/// Text that a value writes of itself in the structure-file format.
pub trait Export {
    /// What `format_output` returns.
    spec fn output(&self) -> Seq<char>;

    fn format_output(&self) -> (r: String)
        ensures
            r@ == self.output(),
    ;
}

/// Three real numbers: a point or a vector in Cartesian or fractional
/// coordinates.
#[derive(Debug)]
pub struct Point3 {
    pub x: Decimal,
    pub y: Decimal,
    pub z: Decimal,
}

/// The three literals of a [`Point3`].
pub struct PointView {
    pub x: Seq<char>,
    pub y: Seq<char>,
    pub z: Seq<char>,
}

/// Whether each of the three numbers of `p` is written with `places` digits
/// behind the point.
pub open spec fn point_is_fixed(p: PointView, places: nat) -> bool {
    is_fixed(p.x, places) && is_fixed(p.y, places) && is_fixed(p.z, places)
}

impl View for Point3 {
    type V = PointView;

    open spec fn view(&self) -> PointView {
        PointView { x: self.x@, y: self.y@, z: self.z@ }
    }
}

impl Clone for Point3 {
    fn clone(&self) -> (r: Self)
        ensures
            r@ == self@,
    {
        Point3 { x: self.x.clone(), y: self.y.clone(), z: self.z.clone() }
    }
}

impl Point3 {
    pub fn new(x: Decimal, y: Decimal, z: Decimal) -> (r: Self)
        ensures
            r@ == (PointView { x: x@, y: y@, z: z@ }),
    {
        Point3 { x, y, z }
    }

    /// Whether each of the three numbers is written with `places` digits
    /// behind the point.
    pub fn has_places(&self, places: usize) -> (ok: bool)
        ensures
            ok == point_is_fixed(self@, places as nat),
    {
        self.x.has_places(places) && self.y.has_places(places) && self.z.has_places(places)
    }
}

/// An atom of a structure.
///
/// The identifier is given when the atom is made and never changes; the
/// element may be replaced.
#[derive(Debug)]
pub struct Atom {
    element_name: String,
    element_id: u8,
    xyz: Point3,
    atom_id: u8,
}

/// What an [`Atom`] holds.
pub struct AtomView {
    pub element_name: Seq<char>,
    pub element_id: u8,
    pub xyz: PointView,
    pub atom_id: u8,
}

impl View for Atom {
    type V = AtomView;

    closed spec fn view(&self) -> AtomView {
        AtomView {
            element_name: self.element_name@,
            element_id: self.element_id,
            xyz: self.xyz@,
            atom_id: self.atom_id,
        }
    }
}

impl Clone for Atom {
    fn clone(&self) -> (r: Self)
        ensures
            r@ == self@,
    {
        Atom {
            element_name: self.element_name.clone(),
            element_id: self.element_id,
            xyz: self.xyz.clone(),
            atom_id: self.atom_id,
        }
    }
}

/// The block that an atom writes in the structure-file format. The item
/// number in its first line is the identifier plus one; the coordinates stand
/// as the atom carries them.
pub open spec fn atom_block(a: AtomView) -> Seq<char> {
    "  ("@ + decimal((a.atom_id + 1) as nat) + " Atom\n    (A C ACL \""@ + decimal(
        a.element_id as nat,
    ) + " "@ + a.element_name + "\")\n    (A C Label \""@ + a.element_name
        + "\")\n    (A D XYZ ("@ + a.xyz.x + " "@ + a.xyz.y + " "@ + a.xyz.z
        + "))\n    (A I Id "@ + decimal(a.atom_id as nat) + ")\n  )\n"@
}

impl Atom {
    pub fn new(element_name: String, element_id: u8, xyz: Point3, atom_id: u8) -> (r: Self)
        ensures
            r@ == (AtomView {
                element_name: element_name@,
                element_id: element_id,
                xyz: xyz@,
                atom_id: atom_id,
            }),
    {
        Atom { element_name, element_id, xyz, atom_id }
    }

    pub fn element_name(&self) -> (r: &str)
        ensures
            r@ == self@.element_name,
    {
        self.element_name.as_str()
    }

    pub fn set_element_name(&mut self, new_name: &str)
        ensures
            final(self)@ == (AtomView { element_name: new_name@, ..old(self)@ }),
    {
        self.element_name = String::from_str(new_name);
    }

    pub fn element_id(&self) -> (r: u8)
        ensures
            r == self@.element_id,
    {
        self.element_id
    }

    pub fn set_element_id(&mut self, new_id: u8)
        ensures
            final(self)@ == (AtomView { element_id: new_id, ..old(self)@ }),
    {
        self.element_id = new_id;
    }

    pub fn xyz(&self) -> (r: &Point3)
        ensures
            r@ == self@.xyz,
    {
        &self.xyz
    }

    pub fn set_xyz(&mut self, new_xyz: Point3)
        ensures
            final(self)@ == (AtomView { xyz: new_xyz@, ..old(self)@ }),
    {
        self.xyz = new_xyz;
    }

    pub fn atom_id(&self) -> (r: u8)
        ensures
            r == self@.atom_id,
    {
        self.atom_id
    }
}

impl Export for Atom {
    open spec fn output(&self) -> Seq<char> {
        atom_block(self@)
    }

    fn format_output(&self) -> (r: String) {
        let item_id: u64 = self.atom_id as u64 + 1;
        let mut out = String::from_str("  (");
        out.append(decimal_string(item_id).as_str());
        out.append(" Atom\n    (A C ACL \"");
        out.append(decimal_string(self.element_id as u64).as_str());
        out.append(" ");
        out.append(self.element_name.as_str());
        out.append("\")\n    (A C Label \"");
        out.append(self.element_name.as_str());
        out.append("\")\n    (A D XYZ (");
        out.append(self.xyz.x.as_str());
        out.append(" ");
        out.append(self.xyz.y.as_str());
        out.append(" ");
        out.append(self.xyz.z.as_str());
        out.append("))\n    (A I Id ");
        out.append(decimal_string(self.atom_id as u64).as_str());
        out.append(")\n  )\n");
        out
    }
}

} // verus!
