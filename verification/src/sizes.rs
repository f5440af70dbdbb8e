//! What writing a scene adds to its tables, counted up to a limit, so that a caller can
//! check before writing that the shader's 32-bit indexes will hold.
use crate::material::Material;
use crate::primitive::{prefix_count, prefix_data, prefix_tex, Primitive, PrimitiveList};
use crate::texture::Texture;
use vstd::prelude::*;

verus! {

/// Counts at or above this are reported as this.
pub const SIZE_LIMIT: u64 = 0x1_0000_0000;

/// `n`, or `SIZE_LIMIT` when `n` is at least that.
pub open spec fn capped(n: nat) -> u64 {
    if n < SIZE_LIMIT {
        n as u64
    } else {
        SIZE_LIMIT
    }
}

/// The capped sum of two capped counts.
fn capped_add(a: u64, b: u64, Ghost(x): Ghost<nat>, Ghost(y): Ghost<nat>) -> (r: u64)
    requires
        a == capped(x),
        b == capped(y),
    ensures
        r == capped(x + y),
{
    if a + b < SIZE_LIMIT {
        a + b
    } else {
        SIZE_LIMIT
    }
}

/// The capped value of a machine count.
fn cap_u64(n: u64) -> (r: u64)
    ensures
        r == capped(n as nat),
{
    if n < SIZE_LIMIT {
        n
    } else {
        SIZE_LIMIT
    }
}

impl Texture {
    /// The texture records and the texel budget that writing this texture may add,
    /// each capped at `SIZE_LIMIT`.
    pub fn sizes(&self) -> (r: (u64, u64))
        ensures
            r.0 == capped(self.count()),
            r.1 == capped(self.data_budget()),
        decreases self,
    {
        match self {
            Texture::SolidColor(_) => (1, 0),
            Texture::CheckerTexture(c) => {
                let (ec, ed) = c.even.sizes();
                let (oc, od) = c.odd.sizes();
                let both = capped_add(ec, oc, Ghost(c.even.count()), Ghost(c.odd.count()));
                let n = capped_add(1, both, Ghost(1), Ghost(c.even.count() + c.odd.count()));
                let d = capped_add(
                    ed,
                    od,
                    Ghost(c.even.data_budget()),
                    Ghost(c.odd.data_budget()),
                );
                (n, d)
            },
            Texture::ImageTexture(im) => {
                let len = cap_u64(im.pixels.len() as u64);
                let w = im.width as u64;
                let h = im.height as u64;
                assert(w * h <= 0xffff_ffffu64 * 0xffff_ffffu64) by (nonlinear_arith)
                    requires
                        w <= 0xffff_ffffu64,
                        h <= 0xffff_ffffu64,
                ;
                let area = cap_u64(w * h);
                let d = if len >= area { len } else { area };
                (1, d)
            },
        }
    }
}

impl Material {
    /// The texture records and the texel budget that writing this material may add,
    /// each capped at `SIZE_LIMIT`.
    pub fn sizes(&self) -> (r: (u64, u64))
        ensures
            r.0 == capped(self.tex_count()),
            r.1 == capped(self.data_budget()),
    {
        match self {
            Material::Lambertian(l) => l.tex.tex.sizes(),
            Material::DiffuseLight(l) => l.tex.tex.sizes(),
            Material::Isotropic(l) => l.tex.tex.sizes(),
            Material::Metal(_) => (0, 0),
            Material::Dielectric(_) => (0, 0),
        }
    }
}

/// Capped record counts, texture budgets and texel budgets of a primitive.
pub open spec fn sizes_of(p: Primitive, r: (u64, u64, u64)) -> bool {
    &&& r.0 == capped(p.count())
    &&& r.1 == capped(p.tex_budget())
    &&& r.2 == capped(p.data_budget())
}

impl PrimitiveList {
    /// The capped sizes of this list node and its elements.
    pub fn sizes(&self) -> (r: (u64, u64, u64))
        ensures
            sizes_of(Primitive::PrimitiveList(*self), r),
        decreases self, 0nat,
    {
        let ghost s = self.prim_list@;
        let mut n: u64 = 0;
        let mut t: u64 = 0;
        let mut d: u64 = 0;
        let mut i: usize = 0;
        while i < self.prim_list.len()
            invariant
                0 <= i <= s.len(),
                s == self.prim_list@,
                n == capped(prefix_count(s, i as nat)),
                t == capped(prefix_tex(s, i as nat)),
                d == capped(prefix_data(s, i as nat)),
            decreases s.len() - i,
        {
            let r = self.prim_list[i].sizes();
            assert(prefix_count(s, (i + 1) as nat) == prefix_count(s, i as nat) + s[i as int].count());
            assert(prefix_tex(s, (i + 1) as nat) == prefix_tex(s, i as nat) + s[i as int].tex_budget());
            assert(prefix_data(s, (i + 1) as nat) == prefix_data(s, i as nat) + s[i as int].data_budget());
            n = capped_add(n, r.0, Ghost(prefix_count(s, i as nat)), Ghost(s[i as int].count()));
            t = capped_add(t, r.1, Ghost(prefix_tex(s, i as nat)), Ghost(s[i as int].tex_budget()));
            d = capped_add(d, r.2, Ghost(prefix_data(s, i as nat)), Ghost(s[i as int].data_budget()));
            i = i + 1;
        }
        let total = capped_add(1, n, Ghost(1), Ghost(prefix_count(s, s.len())));
        (total, t, d)
    }
}

/// The records of an optional child: none when it is absent.
spec fn child_count(c: Option<Box<Primitive>>) -> nat {
    match c {
        Some(p) => p.count(),
        None => 0,
    }
}

/// The texture budget of an optional child.
spec fn child_tex(c: Option<Box<Primitive>>) -> nat {
    match c {
        Some(p) => p.tex_budget(),
        None => 0,
    }
}

/// The texel budget of an optional child.
spec fn child_data(c: Option<Box<Primitive>>) -> nat {
    match c {
        Some(p) => p.data_budget(),
        None => 0,
    }
}

impl Primitive {
    /// The primitive records, texture records and texel budget that writing this
    /// primitive may add, each capped at `SIZE_LIMIT`.
    pub fn sizes(&self) -> (r: (u64, u64, u64))
        ensures
            sizes_of(*self, r),
        decreases self, 1nat,
    {
        match self {
            Primitive::Sphere(s) => {
                let (t, d) = s.mat.mat.sizes();
                (1, t, d)
            },
            Primitive::Quad(q) => {
                let (t, d) = q.mat.mat.sizes();
                (1, t, d)
            },
            Primitive::PrimitiveList(l) => l.sizes(),
            Primitive::BVHNode(b) => {
                let left = match &b.left {
                    Some(c) => c.sizes(),
                    None => (0, 0, 0),
                };
                let right = match &b.right {
                    Some(c) => c.sizes(),
                    None => (0, 0, 0),
                };
                let children = capped_add(left.0, right.0, Ghost(child_count(b.left)), Ghost(child_count(b.right)));
                let n = capped_add(1, children, Ghost(1), Ghost(child_count(b.left) + child_count(b.right)));
                let t = capped_add(left.1, right.1, Ghost(child_tex(b.left)), Ghost(child_tex(b.right)));
                let d = capped_add(left.2, right.2, Ghost(child_data(b.left)), Ghost(child_data(b.right)));
                (n, t, d)
            },
            Primitive::Translate(tr) => {
                let r = tr.object.sizes();
                let n = capped_add(1, r.0, Ghost(1), Ghost(tr.object.count()));
                (n, r.1, r.2)
            },
            Primitive::RotateY(ro) => {
                let r = ro.object.sizes();
                let n = capped_add(1, r.0, Ghost(1), Ghost(ro.object.count()));
                (n, r.1, r.2)
            },
            Primitive::ConstantMedium(c) => {
                let r = c.boundary.sizes();
                let (pt, pd) = c.phase_function.mat.sizes();
                let n = capped_add(1, r.0, Ghost(1), Ghost(c.boundary.count()));
                let t = capped_add(
                    pt,
                    r.1,
                    Ghost(c.phase_function@.tex_count()),
                    Ghost(c.boundary.tex_budget()),
                );
                let d = capped_add(
                    pd,
                    r.2,
                    Ghost(c.phase_function@.data_budget()),
                    Ghost(c.boundary.data_budget()),
                );
                (n, t, d)
            },
        }
    }
}

} // verus!
