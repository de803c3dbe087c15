use vstd::prelude::*;
use vstd::string::StringExecFns;
use std::collections::HashMap;
use crate::color_image::Rgba;
use crate::grid::Grid;
use crate::temperature::Temp;
use crate::thermal_data::{ThermalData, ThermalDataPos};

verus! {

broadcast use vstd::std_specs::hash::group_hash_axioms;

/// What a probe measures, or, for the root, the probes it holds.
#[derive(Debug, PartialEq, Eq)]
pub enum GizmoKind {
    Root { children: Vec<Gizmo> },
    MaxTemp,
    MinTemp,
    TempAt { pos: ThermalDataPos },
}

/// A named, coloured probe, known by a number of its own.
#[derive(Debug, PartialEq, Eq)]
pub struct Gizmo {
    pub uuid: u128,
    pub kind: GizmoKind,
    pub name: String,
    pub color: Rgba,
    pub show_temperature_label: bool,
}

impl GizmoKind {
    /// Of one kind, looking at one place, and holding probes that are
    /// alike one for one.
    pub open spec fn alike(self, other: GizmoKind) -> bool
        decreases self,
    {
        match self {
            GizmoKind::Root { children } => other is Root && children@.len()
                == other->children@.len() && forall|i: int|
                0 <= i < children@.len() ==> (#[trigger] children@[i]).alike(other->children@[i]),
            GizmoKind::MaxTemp => other is MaxTemp,
            GizmoKind::MinTemp => other is MinTemp,
            GizmoKind::TempAt { pos } => other is TempAt && other->pos == pos,
        }
    }
}

impl Gizmo {
    /// Alike in number, kind, name, colour and label, and in the probes held.
    pub open spec fn alike(self, other: Gizmo) -> bool
        decreases self,
    {
        &&& self.uuid == other.uuid
        &&& self.kind.alike(other.kind)
        &&& self.name@ == other.name@
        &&& self.color == other.color
        &&& self.show_temperature_label == other.show_temperature_label
    }
}

impl Clone for GizmoKind {
    fn clone(&self) -> (r: GizmoKind)
        ensures
            self.alike(r),
        decreases self,
    {
        match self {
            GizmoKind::Root { children } => {
                let mut copies: Vec<Gizmo> = Vec::with_capacity(children.len());
                let mut i: usize = 0;
                while i < children.len()
                    invariant
                        0 <= i <= children@.len(),
                        *self == (GizmoKind::Root { children: *children }),
                        copies@.len() == i,
                        forall|k: int| 0 <= k < i ==> (#[trigger] children@[k]).alike(copies@[k]),
                    decreases children@.len() - i,
                {
                    proof {
                        vstd::std_specs::vec::axiom_vec_index_decreases(*children, i as int);
                        assert(decreases_to!(*self => self->children));
                        assert(decreases_to!(self->children => (self->children)[i as int]));
                    }
                    let copy = children[i].clone();
                    copies.push(copy);
                    i += 1;
                }
                GizmoKind::Root { children: copies }
            },
            GizmoKind::MaxTemp => GizmoKind::MaxTemp,
            GizmoKind::MinTemp => GizmoKind::MinTemp,
            GizmoKind::TempAt { pos } => GizmoKind::TempAt { pos: *pos },
        }
    }
}

impl Clone for Gizmo {
    fn clone(&self) -> (r: Gizmo)
        ensures
            self.alike(r),
        decreases self,
    {
        Gizmo {
            uuid: self.uuid,
            kind: self.kind.clone(),
            name: self.name.clone(),
            color: self.color,
            show_temperature_label: self.show_temperature_label,
        }
    }
}

/// What a probe found in one frame: the temperature, and where.
#[derive(Clone, Copy, Debug, PartialEq, Eq, Structural)]
pub struct GizmoResult {
    pub temperature: Temp,
    pub pos: ThermalDataPos,
}

/// Why the probes of a frame could not be read.
#[derive(Clone, Copy, Debug, PartialEq, Eq, Structural)]
pub enum GizmoError {
    /// The probe handed in as the root holds no probes: it is not a root.
    RootHasNoChildren,
}

/// `uuid::Uuid::new_v4` and `uuid::Uuid::as_u128`: a new random identifier,
/// as a number. Nothing is claimed of it.
#[verifier::external_body]
fn fresh_uuid() -> (id: u128) {
    uuid::Uuid::new_v4().as_u128()
}

/// What the probe `g` finds in the frame `data`, whose coldest pixel is at
/// `min_pos` and whose warmest is at `max_pos`.
pub open spec fn probe_result(
    g: Gizmo,
    data: Grid<Temp>,
    min_pos: ThermalDataPos,
    max_pos: ThermalDataPos,
) -> GizmoResult {
    match g.kind {
        GizmoKind::MinTemp => GizmoResult {
            temperature: data.at(min_pos.x as int, min_pos.y as int),
            pos: min_pos,
        },
        GizmoKind::TempAt { pos } => GizmoResult {
            temperature: data.at(pos.x as int, pos.y as int),
            pos,
        },
        _ => GizmoResult { temperature: data.at(max_pos.x as int, max_pos.y as int), pos: max_pos },
    }
}

/// What the probes `children` find, each under its own number; of two
/// probes with one number, the later one counts.
pub open spec fn results_of(
    children: Seq<Gizmo>,
    data: Grid<Temp>,
    min_pos: ThermalDataPos,
    max_pos: ThermalDataPos,
) -> Map<u128, GizmoResult>
    decreases children.len(),
{
    if children.len() == 0 {
        Map::empty()
    } else {
        results_of(children.drop_last(), data, min_pos, max_pos).insert(
            children.last().uuid,
            probe_result(children.last(), data, min_pos, max_pos),
        )
    }
}

impl Gizmo {
    /// The probes that a root holds; none for any other probe.
    pub open spec fn children(self) -> Seq<Gizmo> {
        match self.kind {
            GizmoKind::Root { children } => children@,
            _ => Seq::empty(),
        }
    }

    /// The probe can be read on a frame of the given size: it is no root,
    /// and where it looks at one place, the place is in the frame.
    pub open spec fn spec_measurable(self, width: int, height: int) -> bool {
        match self.kind {
            GizmoKind::Root { .. } => false,
            GizmoKind::TempAt { pos } => pos.x < width && pos.y < height,
            _ => true,
        }
    }

    /// Every probe that this one holds can be read on a frame of the given size.
    pub open spec fn spec_fits(self, width: int, height: int) -> bool {
        forall|i: int|
            0 <= i < self.children().len() ==> (#[trigger] self.children()[i]).spec_measurable(
                width,
                height,
            )
    }

    /// The colour that the colour of the next probe is derived from: that of
    /// the last probe held, and red where none is held.
    pub open spec fn spec_last_child_color(self) -> Rgba {
        if self.children().len() > 0 {
            self.children().last().color
        } else {
            Rgba { r: 255, g: 0, b: 0, a: 255 }
        }
    }

    /// A probe of the given kind, name and colour, under a number of its
    /// own, that shows its temperature.
    pub fn new(kind: GizmoKind, name: String, color: Rgba) -> (g: Gizmo)
        ensures
            g.kind == kind,
            g.name == name,
            g.color == color,
            g.show_temperature_label,
    {
        Self { uuid: fresh_uuid(), kind, name, color, show_temperature_label: true }
    }

    /// A root that holds `children`, under a number of its own.
    pub fn new_root(children: Vec<Gizmo>) -> (g: Gizmo)
        ensures
            g.kind == (GizmoKind::Root { children }),
            g.name@ == "Root"@,
            g.color == (Rgba { r: 255, g: 255, b: 255, a: 255 }),
            g.show_temperature_label,
    {
        Self {
            uuid: fresh_uuid(),
            kind: GizmoKind::Root { children },
            name: String::from_str("Root"),
            color: Rgba::white(),
            show_temperature_label: true,
        }
    }

    /// The probes that a root holds, to read them.
    pub fn children_ref(&self) -> (r: Option<&Vec<Gizmo>>)
        ensures
            match r {
                Some(c) => self.kind == (GizmoKind::Root { children: *c }),
                None => !(self.kind is Root),
            },
    {
        match &self.kind {
            GizmoKind::Root { children } => Some(children),
            _ => None,
        }
    }

    /// The probes that a root holds, to change them.
    pub fn children_mut(&mut self) -> (r: Option<&mut Vec<Gizmo>>)
        ensures
            match r {
                Some(c) => {
                    &&& old(self).kind == (GizmoKind::Root { children: *c })
                    &&& final(self).kind == (GizmoKind::Root { children: *final(c) })
                },
                None => !(old(self).kind is Root) && final(self).kind == old(self).kind,
            },
            final(self).uuid == old(self).uuid,
            final(self).name == old(self).name,
            final(self).color == old(self).color,
            final(self).show_temperature_label == old(self).show_temperature_label,
    {
        match &mut self.kind {
            GizmoKind::Root { children } => Some(children),
            _ => None,
        }
    }

    /// The colour that the colour of the next probe is derived from: that of
    /// the last probe held, and red where none is held.
    pub fn last_child_color(&self) -> (c: Rgba)
        ensures
            c == self.spec_last_child_color(),
    {
        match &self.kind {
            GizmoKind::Root { children } => {
                if children.len() > 0 {
                    children[children.len() - 1].color
                } else {
                    Rgba::from_rgb(255, 0, 0)
                }
            },
            _ => Rgba::from_rgb(255, 0, 0),
        }
    }

    /// Adds a probe of the given kind, name and colour to those that this root holds.
    pub fn push_child(&mut self, kind: GizmoKind, name: String, color: Rgba)
        requires
            old(self).kind is Root,
        ensures
            final(self).kind is Root,
            final(self).children().len() == old(self).children().len() + 1,
            final(self).children().drop_last() == old(self).children(),
            final(self).children().last().kind == kind,
            final(self).children().last().name == name,
            final(self).children().last().color == color,
            final(self).children().last().show_temperature_label,
            final(self).uuid == old(self).uuid,
            final(self).name == old(self).name,
            final(self).color == old(self).color,
            final(self).show_temperature_label == old(self).show_temperature_label,
    {
        let child = Gizmo::new(kind, name, color);
        match &mut self.kind {
            GizmoKind::Root { children } => {
                children.push(child);
            },
            _ => {},
        }
        proof {
            assert(final(self).children().drop_last() =~= old(self).children());
        }
    }

    /// Whether the probe can be read on a frame of the given size.
    pub fn measurable(&self, width: usize, height: usize) -> (b: bool)
        ensures
            b == self.spec_measurable(width as int, height as int),
    {
        match &self.kind {
            GizmoKind::Root { .. } => false,
            GizmoKind::TempAt { pos } => pos.x < width && pos.y < height,
            _ => true,
        }
    }

    /// Whether every probe that this one holds can be read on a frame of the given size.
    pub fn fits(&self, width: usize, height: usize) -> (b: bool)
        ensures
            b == self.spec_fits(width as int, height as int),
    {
        match &self.kind {
            GizmoKind::Root { children } => {
                let mut i: usize = 0;
                while i < children.len()
                    invariant
                        0 <= i <= children@.len(),
                        children@ == self.children(),
                        forall|k: int|
                            0 <= k < i ==> (#[trigger] self.children()[k]).spec_measurable(
                                width as int,
                                height as int,
                            ),
                    decreases children@.len() - i,
                {
                    if !children[i].measurable(width, height) {
                        return false;
                    }
                    i += 1;
                }
                true
            },
            _ => true,
        }
    }

    /// What the probes that this root holds find in the frame `data`, whose
    /// coldest pixel is at `min_pos` and whose warmest is at `max_pos`.
    pub fn evaluate(&self, data: &ThermalData, min_pos: ThermalDataPos, max_pos: ThermalDataPos) -> (r:
        Result<HashMap<u128, GizmoResult>, GizmoError>)
        requires
            data.wf(),
            self.spec_fits(data.width as int, data.height as int),
            self.children().len() > 0 ==> {
                &&& min_pos.x < data.width && min_pos.y < data.height
                &&& max_pos.x < data.width && max_pos.y < data.height
            },
        ensures
            match r {
                Ok(found) => self.kind is Root && found@ == results_of(
                    self.children(),
                    data@,
                    min_pos,
                    max_pos,
                ),
                Err(e) => !(self.kind is Root) && e == GizmoError::RootHasNoChildren,
            },
    {
        match &self.kind {
            GizmoKind::Root { children } => {
                let mut found: HashMap<u128, GizmoResult> = HashMap::new();
                let mut i: usize = 0;
                while i < children.len()
                    invariant
                        data.wf(),
                        0 <= i <= children@.len(),
                        children@ == self.children(),
                        self.spec_fits(data.width as int, data.height as int),
                        children@.len() > 0 ==> min_pos.x < data.width && min_pos.y
                            < data.height,
                        children@.len() > 0 ==> max_pos.x < data.width && max_pos.y
                            < data.height,
                        found@ == results_of(children@.take(i as int), data@, min_pos, max_pos),
                    decreases children@.len() - i,
                {
                    let g = &children[i];
                    proof {
                        assert(self.children()[i as int].spec_measurable(
                            data.width as int,
                            data.height as int,
                        ));
                        assert(children@.take(i + 1).drop_last() =~= children@.take(i as int));
                    }
                    let result = match g.kind {
                        GizmoKind::MinTemp => GizmoResult {
                            temperature: data.temperature_at(min_pos.x, min_pos.y),
                            pos: min_pos,
                        },
                        GizmoKind::TempAt { pos } => GizmoResult {
                            temperature: data.temperature_at(pos.x, pos.y),
                            pos,
                        },
                        _ => GizmoResult {
                            temperature: data.temperature_at(max_pos.x, max_pos.y),
                            pos: max_pos,
                        },
                    };
                    found.insert(g.uuid, result);
                    i += 1;
                }
                proof {
                    assert(children@.take(children@.len() as int) =~= children@);
                }
                Ok(found)
            },
            _ => Err(GizmoError::RootHasNoChildren),
        }
    }
}

} // verus!
