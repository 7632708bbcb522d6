//! The names under which water heaters can be asked for.
use vstd::prelude::*;

verus! {

/// A kind of water heater.
#[derive(Debug, Clone, Copy, PartialEq, Eq, Structural)]
pub enum HeaterKind {
    Resistance,
    Gas,
    HeatPump,
    Tankless,
    IndirectTank,
}

/// What a name stands for.
#[derive(Debug, Clone, Copy)]
pub enum Registration {
    /// A kind of heater.
    Heater(HeaterKind),
    /// Nothing that can be built, for this reason.
    Refused(&'static str),
}

/// A name with what it stands for.
#[derive(Debug, Clone, Copy)]
pub struct RegistryEntry {
    pub name: &'static str,
    pub registration: Registration,
}

/// The names under which equipment can be asked for. Of two registrations under one name
/// the later one counts.
#[derive(Debug)]
pub struct EquipmentRegistry {
    entries: Vec<RegistryEntry>,
}

/// What the first entries of a list register.
pub open spec fn registered(entries: Seq<RegistryEntry>) -> Map<Seq<char>, Registration>
    decreases entries.len(),
{
    if entries.len() == 0 {
        Map::empty()
    } else {
        registered(entries.drop_last()).insert(
            entries.last().name@,
            entries.last().registration,
        )
    }
}

impl View for EquipmentRegistry {
    type V = Map<Seq<char>, Registration>;

    closed spec fn view(&self) -> Map<Seq<char>, Registration> {
        registered(self.entries@)
    }
}

impl EquipmentRegistry {
    /// A registry without names.
    pub fn new() -> (r: EquipmentRegistry)
        ensures
            r@ == Map::<Seq<char>, Registration>::empty(),
    {
        EquipmentRegistry { entries: Vec::new() }
    }

    /// Let a name stand for a kind of heater.
    pub fn register(&mut self, name: &'static str, kind: HeaterKind)
        ensures
            final(self)@ == old(self)@.insert(name@, Registration::Heater(kind)),
    {
        self.entries.push(RegistryEntry { name, registration: Registration::Heater(kind) });
        assert(self.entries@.drop_last() =~= old(self).entries@);
    }

    /// Let a name stand for an error.
    pub fn register_error(&mut self, name: &'static str, message: &'static str)
        ensures
            final(self)@ == old(self)@.insert(name@, Registration::Refused(message)),
    {
        self.entries.push(RegistryEntry { name, registration: Registration::Refused(message) });
        assert(self.entries@.drop_last() =~= old(self).entries@);
    }

    /// What a name stands for, if anything.
    pub fn lookup(&self, name: &str) -> (r: Option<Registration>)
        ensures
            r == (if self@.dom().contains(name@) {
                Some(self@[name@])
            } else {
                None
            }),
    {
        let wanted: String = name.to_owned();
        let mut i: usize = self.entries.len();
        assert(self.entries@.take(i as int) =~= self.entries@);
        while i > 0
            invariant
                i <= self.entries@.len(),
                wanted@ == name@,
                registered(self.entries@.take(i as int)).dom().contains(name@)
                    == self@.dom().contains(name@),
                self@.dom().contains(name@) ==> self@[name@] == registered(
                    self.entries@.take(i as int),
                )[name@],
            decreases i,
        {
            assert(self.entries@.take(i as int).drop_last() =~= self.entries@.take(i - 1));
            assert(self.entries@.take(i as int).last() == self.entries@[i - 1]);
            i -= 1;
            if self.entries[i].name.to_owned() == wanted {
                return Some(self.entries[i].registration);
            }
        }
        None
    }
}

} // verus!
