//! The registry that says which rule looks at a packet, by its header.

use vstd::prelude::*;

verus! {

/// What the relay does with a packet on its way from the server.
#[derive(Clone, Copy, Debug, PartialEq, Eq, Structural)]
pub enum Rule {
    /// Forward the payload as it is.
    PassThrough,
    /// Take the obfuscation keys and the player's id from the reply.
    Handshake,
    /// Note the name of the character that was selected.
    CharacterSelection,
    /// Add an item to the reply's list of nearby items.
    MapInfoAugmentation,
}

/// One registration: the rule for the packets of one family and action.
#[derive(Clone, Copy, Debug, PartialEq, Eq, Structural)]
pub struct RuleEntry {
    pub family: u8,
    pub action: u8,
    pub rule: Rule,
}

/// The rule that a list of registrations gives a header: that of the latest
/// registration for it, and pass-through where there is none.
pub open spec fn latest_rule(entries: Seq<RuleEntry>, family: u8, action: u8) -> Rule
    decreases entries.len(),
{
    if entries.len() == 0 {
        Rule::PassThrough
    } else if entries.last().family == family && entries.last().action == action {
        entries.last().rule
    } else {
        latest_rule(entries.drop_last(), family, action)
    }
}

/// The header of a packet that can be classified, action first: a packet
/// holds one when it has both header bytes.
pub open spec fn header_of(packet: Seq<u8>) -> Option<(u8, u8)> {
    if packet.len() >= 2 {
        Some((packet[0], packet[1]))
    } else {
        None
    }
}

/// The action codes that the protocol knows, and the rules registered for
/// headers.
pub struct Dispatch {
    actions: Vec<u8>,
    entries: Vec<RuleEntry>,
}

impl Dispatch {
    /// Whether `action` is a code of the protocol.
    pub closed spec fn knows(&self, action: u8) -> bool {
        self.actions@.contains(action)
    }

    /// The rule for the packets of `family` and `action`.
    pub closed spec fn rule_for(&self, family: u8, action: u8) -> Rule {
        latest_rule(self.entries@, family, action)
    }

    /// The rule for `packet`; `None` where the packet cannot be classified,
    /// because its header is cut short or its action byte is no known code.
    pub open spec fn classified(&self, packet: Seq<u8>) -> Option<Rule> {
        match header_of(packet) {
            Some((action, family)) => if self.knows(action) {
                Some(self.rule_for(family, action))
            } else {
                None
            },
            None => None,
        }
    }

    /// A registry that knows no action and holds no rule.
    pub fn new() -> (dispatch: Dispatch)
        ensures
            forall|action: u8| !dispatch.knows(action),
            forall|family: u8, action: u8|
                dispatch.rule_for(family, action) == Rule::PassThrough,
    {
        Dispatch { actions: Vec::new(), entries: Vec::new() }
    }

    /// Makes `action` a known code.
    pub fn allow_action(&mut self, action: u8)
        ensures
            forall|other: u8|
                final(self).knows(other) == (other == action || old(self).knows(other)),
            forall|family: u8, other: u8|
                final(self).rule_for(family, other) == old(self).rule_for(family, other),
    {
        self.actions.push(action);
        assert forall|other: u8|
            self.actions@.contains(other) == (other == action || old(self).actions@.contains(
                other,
            )) by {
            let before = old(self).actions@;
            let now = self.actions@;
            assert(now == before.push(action));
            if other == action {
                assert(now[before.len() as int] == action);
            }
            if before.contains(other) {
                let i = choose|i: int| 0 <= i < before.len() && before[i] == other;
                assert(now[i] == other);
            }
            if now.contains(other) && other != action {
                let i = choose|i: int| 0 <= i < now.len() && now[i] == other;
                assert(before[i] == other);
            }
        }
    }

    /// Registers `rule` for the packets of `family` and `action`, in place of
    /// whatever was registered for them.
    pub fn register(&mut self, family: u8, action: u8, rule: Rule)
        ensures
            final(self).rule_for(family, action) == rule,
            forall|f: u8, a: u8|
                (f != family || a != action) ==> final(self).rule_for(f, a) == old(self).rule_for(
                    f,
                    a,
                ),
            forall|other: u8| final(self).knows(other) == old(self).knows(other),
    {
        self.entries.push(RuleEntry { family, action, rule });
        assert(self.entries@.drop_last() =~= old(self).entries@);
    }

    /// Whether `action` is a code of the protocol.
    pub fn is_known(&self, action: u8) -> (known: bool)
        ensures
            known == self.knows(action),
    {
        let mut i: usize = 0;
        while i < self.actions.len()
            invariant
                i <= self.actions.len(),
                forall|j: int| 0 <= j < i ==> self.actions@[j] != action,
            decreases self.actions.len() - i,
        {
            if self.actions[i] == action {
                return true;
            }
            i += 1;
        }
        false
    }

    /// The rule for the packets of `family` and `action`.
    pub fn lookup(&self, family: u8, action: u8) -> (rule: Rule)
        ensures
            rule == self.rule_for(family, action),
    {
        let mut i: usize = self.entries.len();
        assert(self.entries@.take(i as int) =~= self.entries@);
        while i > 0
            invariant
                i <= self.entries.len(),
                latest_rule(self.entries@, family, action) == latest_rule(
                    self.entries@.take(i as int),
                    family,
                    action,
                ),
            decreases i,
        {
            let entry = self.entries[i - 1];
            if entry.family == family && entry.action == action {
                return entry.rule;
            }
            assert(self.entries@.take(i as int).drop_last() =~= self.entries@.take(i - 1));
            i -= 1;
        }
        Rule::PassThrough
    }

    /// The rule for `packet`, or `None` where it cannot be classified.
    pub fn classify(&self, packet: &Vec<u8>) -> (rule: Option<Rule>)
        ensures
            rule == self.classified(packet@),
    {
        if packet.len() >= 2 && self.is_known(packet[0]) {
            Some(self.lookup(packet[1], packet[0]))
        } else {
            None
        }
    }
}

} // verus!
