//! Key bindings: configured triggers and the actions they start.

use vstd::prelude::*;

use crate::config::{BindingAction, BindingsConfig, KeyBindingConfig};
use crate::keys::{key_named, named_key, KeyCode};
use crate::text::{
    chars_of, is_space, lower, lowered, normalized_name, same_text, trimmed,
    trimming_ignores_surrounding_space,
};

verus! {

/// A set of held modifiers.
#[derive(Clone, Copy, PartialEq, Eq, Structural, Debug)]
pub struct BindingModifiers {
    /// Whether Control is held.
    pub control: bool,
    /// Whether Alt is held.
    pub alt: bool,
    /// Whether Shift is held.
    pub shift: bool,
    /// Whether Super is held.
    pub super_key: bool,
}

/// One where a flag is set.
pub open spec fn flag(b: bool) -> nat {
    if b {
        1
    } else {
        0
    }
}

impl Default for BindingModifiers {
    fn default() -> (modifiers: Self)
        ensures
            modifiers == no_modifiers(),
    {
        BindingModifiers { control: false, alt: false, shift: false, super_key: false }
    }
}

/// The empty set of modifiers.
pub open spec fn no_modifiers() -> BindingModifiers {
    BindingModifiers { control: false, alt: false, shift: false, super_key: false }
}

impl BindingModifiers {
    /// Whether all of these modifiers are among the current ones.
    pub open spec fn included_in(self, current: Self) -> bool {
        &&& self.control ==> current.control
        &&& self.alt ==> current.alt
        &&& self.shift ==> current.shift
        &&& self.super_key ==> current.super_key
    }

    /// The modifiers of either set.
    pub open spec fn joined(self, other: Self) -> Self {
        BindingModifiers {
            control: self.control || other.control,
            alt: self.alt || other.alt,
            shift: self.shift || other.shift,
            super_key: self.super_key || other.super_key,
        }
    }

    /// How many modifiers are in the set.
    pub open spec fn size(self) -> nat {
        flag(self.control) + flag(self.alt) + flag(self.shift) + flag(self.super_key)
    }

    /// Tests whether all of these modifiers are among the current ones.
    pub fn matches(self, current: Self) -> (r: bool)
        ensures
            r == self.included_in(current),
    {
        (!self.control || current.control) && (!self.alt || current.alt) && (!self.shift
            || current.shift) && (!self.super_key || current.super_key)
    }

    /// Joins two sets of modifiers.
    pub fn union(self, other: Self) -> (both: Self)
        ensures
            both == self.joined(other),
    {
        BindingModifiers {
            control: self.control || other.control,
            alt: self.alt || other.alt,
            shift: self.shift || other.shift,
            super_key: self.super_key || other.super_key,
        }
    }

    /// Counts the modifiers.
    pub fn count(self) -> (n: usize)
        ensures
            n == self.size(),
    {
        self.control as usize + self.alt as usize + self.shift as usize + self.super_key as usize
    }
}

/// A modifier named in a binding.
#[derive(Clone, Copy, PartialEq, Eq, Structural, Debug)]
pub enum ParsedModifier {
    /// The Control modifier.
    Control,
    /// The Alt modifier.
    Alt,
    /// The Shift modifier.
    Shift,
    /// The Super modifier.
    Super,
}

impl ParsedModifier {
    /// The set that holds just this modifier.
    pub open spec fn alone(self) -> BindingModifiers {
        BindingModifiers {
            control: self == ParsedModifier::Control,
            alt: self == ParsedModifier::Alt,
            shift: self == ParsedModifier::Shift,
            super_key: self == ParsedModifier::Super,
        }
    }

    /// Adds this modifier to a set.
    pub fn apply(self, modifiers: &mut BindingModifiers)
        ensures
            *final(modifiers) == old(modifiers).joined(self.alone()),
    {
        match self {
            ParsedModifier::Control => modifiers.control = true,
            ParsedModifier::Alt => modifiers.alt = true,
            ParsedModifier::Shift => modifiers.shift = true,
            ParsedModifier::Super => modifiers.super_key = true,
        }
    }
}

/// The modifier with a given lowercase name.
pub open spec fn modifier_named(name: Seq<char>) -> Option<ParsedModifier> {
    if name == "control"@ || name == "ctrl"@ {
        Some(ParsedModifier::Control)
    } else if name == "alt"@ {
        Some(ParsedModifier::Alt)
    } else if name == "shift"@ {
        Some(ParsedModifier::Shift)
    } else if name == "super"@ || name == "cmd"@ || name == "command"@ || name == "meta"@ {
        Some(ParsedModifier::Super)
    } else {
        None
    }
}

/// Looks up a modifier by its lowercase name.
fn named_modifier(name: &[char]) -> (modifier: Option<ParsedModifier>)
    ensures
        modifier == modifier_named(name@),
{
    if same_text(name, "control") || same_text(name, "ctrl") {
        Some(ParsedModifier::Control)
    } else if same_text(name, "alt") {
        Some(ParsedModifier::Alt)
    } else if same_text(name, "shift") {
        Some(ParsedModifier::Shift)
    } else if same_text(name, "super") || same_text(name, "cmd") || same_text(name, "command")
        || same_text(name, "meta") {
        Some(ParsedModifier::Super)
    } else {
        None
    }
}

/// The modifier that a text names, in whatever case, with or without whitespace
/// around it.
pub open spec fn modifier_spelled(text: Seq<char>) -> Option<ParsedModifier> {
    modifier_named(lowered(trimmed(text)))
}

/// Whitespace around the name of a modifier makes no difference, and neither does
/// its case.
pub proof fn modifier_spelling_ignores_case_and_space(
    before: Seq<char>,
    text: Seq<char>,
    other: Seq<char>,
    after: Seq<char>,
)
    requires
        forall|i: int| 0 <= i < before.len() ==> is_space(#[trigger] before[i]),
        forall|i: int| 0 <= i < after.len() ==> is_space(#[trigger] after[i]),
        text.len() == other.len(),
        text.len() > 0,
        !is_space(text.first()) && !is_space(text.last()),
        forall|i: int| 0 <= i < text.len() ==> lower(#[trigger] text[i]) == lower(other[i]),
    ensures
        modifier_spelled(before + text + after) == modifier_named(lowered(other)),
{
    trimming_ignores_surrounding_space(before, text, after);
    assert(trimmed(text) == text);
    assert(lowered(text) =~= lowered(other));
}

/// Parses the name of a modifier, ignoring case and surrounding whitespace.
pub fn parse_modifier(token: &str) -> (modifier: Option<ParsedModifier>)
    ensures
        modifier == modifier_named(lowered(trimmed(token@))),
        modifier == modifier_spelled(token@),
{
    let name: Vec<char> = normalized_name(chars_of(token).as_slice());
    named_modifier(name.as_slice())
}

/// The parts of a text between the bars.
pub open spec fn parts_of(text: Seq<char>) -> Seq<Seq<char>>
    decreases text.len(),
{
    if text.len() == 0 {
        seq![Seq::empty()]
    } else {
        let before = parts_of(text.drop_last());
        if text.last() == '|' {
            before.push(Seq::empty())
        } else {
            before.drop_last().push(before.last().push(text.last()))
        }
    }
}

/// What the parts of a trigger say so far: the modifiers and the key, or nothing
/// once they contradict each other.
pub type Scan = Option<(BindingModifiers, Option<KeyCode>)>;

/// Reads one more part of a trigger. Empty parts are skipped, modifiers are
/// collected, and any other part has to be the name of the key: it is refused
/// once the key is known, and passed over where it names no key.
pub open spec fn scan_part(scan: Scan, part: Seq<char>) -> Scan {
    let name = lowered(trimmed(part));
    match scan {
        None => None,
        Some((modifiers, key)) => if name.len() == 0 {
            Some((modifiers, key))
        } else {
            match modifier_named(name) {
                Some(modifier) => Some((modifiers.joined(modifier.alone()), key)),
                None => if key is Some {
                    None
                } else {
                    Some((modifiers, key_named(name)))
                },
            }
        },
    }
}

/// What a sequence of parts says.
pub open spec fn scan_parts(parts: Seq<Seq<char>>) -> Scan
    decreases parts.len(),
{
    if parts.len() == 0 {
        Some((no_modifiers(), None))
    } else {
        scan_part(scan_parts(parts.drop_last()), parts.last())
    }
}

/// A trigger and the action it starts.
#[derive(Clone, Copy, PartialEq, Eq, Structural, Debug)]
pub struct KeyBinding {
    /// Key of the trigger.
    pub key_code: KeyCode,
    /// Modifiers of the trigger.
    pub modifiers: BindingModifiers,
    /// Action that the trigger starts.
    pub action: BindingAction,
}

/// The binding that a configuration entry describes.
pub open spec fn binding_of(config: KeyBindingConfig) -> Option<KeyBinding> {
    match scan_parts(parts_of(config.key@) + parts_of(config.with@)) {
        Some((modifiers, Some(key_code))) => Some(
            KeyBinding { key_code, modifiers, action: config.action },
        ),
        _ => None,
    }
}

/// Reads the parts of one text on top of what is known already.
fn scan_text(text: &str, scan: &mut Option<(BindingModifiers, Option<KeyCode>)>, Ghost(before): Ghost<
    Seq<Seq<char>>,
>)
    requires
        *old(scan) == scan_parts(before),
    ensures
        *final(scan) == scan_parts(before + parts_of(text@)),
{
    let chars: Vec<char> = chars_of(text);
    let mut part: Vec<char> = Vec::new();
    let mut i: usize = 0;
    let ghost mut done: Seq<Seq<char>> = Seq::empty();
    assert(chars@.take(0) =~= Seq::<char>::empty());
    assert(done.push(part@) =~= seq![Seq::<char>::empty()]);
    assert(before + done =~= before);
    while i < chars.len()
        invariant
            i <= chars.len(),
            parts_of(chars@.take(i as int)) == done.push(part@),
            *scan == scan_parts(before + done),
        decreases chars.len() - i,
    {
        assert(chars@.take(i + 1).drop_last() =~= chars@.take(i as int));
        assert(chars@.take(i + 1).last() == chars@[i as int]);
        assert(done.push(part@).drop_last() =~= done);
        if chars[i] == '|' {
            scan_token(scan, part.as_slice());
            proof {
                assert((before + done.push(part@)).drop_last() =~= before + done);
                assert((before + done.push(part@)).last() == part@);
                done = done.push(part@);
            }
            part = Vec::new();
        } else {
            part.push(chars[i]);
        }
        i = i + 1;
    }
    scan_token(scan, part.as_slice());
    assert(chars@.take(i as int) =~= text@);
    assert((before + done.push(part@)).drop_last() =~= before + done);
    assert((before + done.push(part@)).last() == part@);
}

/// Reads one more part of a trigger.
fn scan_token(scan: &mut Option<(BindingModifiers, Option<KeyCode>)>, part: &[char])
    ensures
        *final(scan) == scan_part(*old(scan), part@),
{
    let name: Vec<char> = normalized_name(part);
    if let Some((modifiers, key)) = *scan {
        if name.len() == 0 {
            return;
        }
        let mut collected: BindingModifiers = modifiers;
        match named_modifier(name.as_slice()) {
            Some(modifier) => {
                modifier.apply(&mut collected);
                *scan = Some((collected, key));
            },
            None => {
                if key.is_some() {
                    *scan = None;
                } else {
                    *scan = Some((collected, named_key(name.as_slice())));
                }
            },
        }
    }
}

impl KeyBinding {
    /// Makes a binding.
    pub fn new(key_code: KeyCode, modifiers: BindingModifiers, action: BindingAction) -> (binding:
        Self)
        ensures
            binding == (KeyBinding { key_code, modifiers, action }),
    {
        KeyBinding { key_code, modifiers, action }
    }

    /// Reads a configuration entry. Key and modifiers may stand in either field,
    /// separated by bars. Nothing is returned where no key is named, or where
    /// something other than a modifier follows the key.
    pub fn from_config(config: &KeyBindingConfig) -> (binding: Option<Self>)
        ensures
            binding == binding_of(*config),
    {
        let mut scan: Option<(BindingModifiers, Option<KeyCode>)> = Some(
            (BindingModifiers::default(), None),
        );
        scan_text(config.key.as_str(), &mut scan, Ghost(Seq::empty()));
        assert(Seq::<Seq<char>>::empty() + parts_of(config.key@) =~= parts_of(config.key@));
        scan_text(config.with.as_str(), &mut scan, Ghost(parts_of(config.key@)));
        match scan {
            Some((modifiers, Some(key_code))) => Some(
                KeyBinding::new(key_code, modifiers, config.action),
            ),
            _ => None,
        }
    }

    /// Whether two bindings have the same trigger.
    pub open spec fn triggers_like(self, other: Self) -> bool {
        self.key_code == other.key_code && self.modifiers == other.modifiers
    }

    /// Tests whether two bindings have the same trigger.
    pub fn same_trigger(&self, other: &Self) -> (r: bool)
        ensures
            r == self.triggers_like(*other),
    {
        self.key_code == other.key_code && self.modifiers == other.modifiers
    }
}

/// A binding whose trigger has Control or Alt or both.
pub open spec fn default_binding(
    key_code: KeyCode,
    control: bool,
    alt: bool,
    action: BindingAction,
) -> KeyBinding {
    KeyBinding {
        key_code,
        modifiers: BindingModifiers { control, alt, shift: false, super_key: false },
        action,
    }
}

/// The bindings that hold before any configuration.
pub open spec fn default_bindings() -> Seq<KeyBinding> {
    seq![
        default_binding(KeyCode::Enter, true, true, BindingAction::Toggle3DMode),
        default_binding(KeyCode::KeyM, true, true, BindingAction::ToggleMobiusMode),
        default_binding(KeyCode::PageUp, false, true, BindingAction::ScrollPageUp),
        default_binding(KeyCode::PageDown, false, true, BindingAction::ScrollPageDown),
        default_binding(KeyCode::ArrowUp, false, true, BindingAction::ScrollUp),
        default_binding(KeyCode::ArrowDown, false, true, BindingAction::ScrollDown),
        default_binding(KeyCode::ArrowUp, true, true, BindingAction::IncreaseWarp),
        default_binding(KeyCode::ArrowDown, true, true, BindingAction::DecreaseWarp),
        default_binding(KeyCode::KeyC, true, true, BindingAction::Copy),
        default_binding(KeyCode::KeyV, true, true, BindingAction::Paste),
        default_binding(KeyCode::Equal, true, false, BindingAction::IncreaseFontSize),
        default_binding(KeyCode::NumpadAdd, true, false, BindingAction::IncreaseFontSize),
        default_binding(KeyCode::Minus, true, false, BindingAction::DecreaseFontSize),
        default_binding(KeyCode::NumpadSubtract, true, false, BindingAction::DecreaseFontSize),
        default_binding(KeyCode::Digit0, true, true, BindingAction::ResetFontSize),
        default_binding(KeyCode::Numpad0, true, true, BindingAction::ResetFontSize),
    ]
}

/// Makes a binding whose trigger has Control or Alt or both.
fn make_default(key_code: KeyCode, control: bool, alt: bool, action: BindingAction) -> (binding:
    KeyBinding)
    ensures
        binding == default_binding(key_code, control, alt, action),
{
    KeyBinding::new(
        key_code,
        BindingModifiers { control, alt, shift: false, super_key: false },
        action,
    )
}

/// No two bindings share a trigger, and every binding starts something.
pub open spec fn well_formed(bindings: Seq<KeyBinding>) -> bool {
    &&& forall|i: int, j: int|
        0 <= i < j < bindings.len() ==> !(#[trigger] bindings[i]).triggers_like(
            #[trigger] bindings[j],
        )
    &&& forall|i: int|
        0 <= i < bindings.len() ==> (#[trigger] bindings[i]).action != BindingAction::Disabled
}

/// The bindings whose trigger differs from the one of `binding`.
pub open spec fn without_trigger(bindings: Seq<KeyBinding>, binding: KeyBinding) -> Seq<
    KeyBinding,
> {
    bindings.filter(|existing: KeyBinding| !existing.triggers_like(binding))
}

/// The bindings after one more configured binding: it replaces what its trigger
/// did before, and a disabled one leaves its trigger unbound.
pub open spec fn with_binding(bindings: Seq<KeyBinding>, binding: KeyBinding) -> Seq<KeyBinding> {
    if binding.action == BindingAction::Disabled {
        without_trigger(bindings, binding)
    } else {
        without_trigger(bindings, binding).push(binding)
    }
}

/// The bindings after a sequence of configuration entries, invalid ones being
/// ignored.
pub open spec fn configured(entries: Seq<KeyBindingConfig>) -> Seq<KeyBinding>
    decreases entries.len(),
{
    if entries.len() == 0 {
        default_bindings()
    } else {
        let before = configured(entries.drop_last());
        match binding_of(entries.last()) {
            Some(binding) => with_binding(before, binding),
            None => before,
        }
    }
}

proof fn lemma_default_bindings_are_well_formed()
    ensures
        well_formed(default_bindings()),
{
}

/// Filtering out a trigger removes the one binding that has it.
proof fn lemma_without_trigger(bindings: Seq<KeyBinding>, binding: KeyBinding, index: int)
    requires
        well_formed(bindings),
        0 <= index <= bindings.len(),
        index < bindings.len() ==> bindings[index].triggers_like(binding),
        index == bindings.len() ==> forall|i: int|
            0 <= i < bindings.len() ==> !(#[trigger] bindings[i]).triggers_like(binding),
    ensures
        without_trigger(bindings, binding) == (if index < bindings.len() {
            bindings.remove(index)
        } else {
            bindings
        }),
    decreases bindings.len(),
{
    reveal(Seq::filter);
    if bindings.len() > 0 {
        let last = bindings.last();
        let rest = bindings.drop_last();
        if index < bindings.len() - 1 {
            lemma_without_trigger(rest, binding, index);
            assert(!bindings[index].triggers_like(last));
            assert(rest.remove(index).push(last) =~= bindings.remove(index));
        } else {
            assert forall|i: int| 0 <= i < rest.len() implies !(
            #[trigger] rest[i]).triggers_like(binding) by {
                assert(rest[i] == bindings[i]);
                if index < bindings.len() {
                    assert(!bindings[i].triggers_like(bindings[index]));
                }
            }
            lemma_without_trigger(rest, binding, rest.len() as int);
            if index < bindings.len() {
                assert(rest =~= bindings.remove(index));
            } else {
                assert(rest.push(last) =~= bindings);
            }
        }
    }
}

proof fn lemma_with_binding_is_well_formed(bindings: Seq<KeyBinding>, binding: KeyBinding)
    requires
        well_formed(bindings),
    ensures
        well_formed(with_binding(bindings, binding)),
        forall|i: int|
            0 <= i < without_trigger(bindings, binding).len() ==> !(
            #[trigger] without_trigger(bindings, binding)[i]).triggers_like(binding),
{
    let matching = |i: int| 0 <= i < bindings.len() && bindings[i].triggers_like(binding);
    if exists|i: int| #[trigger] matching(i) {
        let index = choose|i: int| #[trigger] matching(i);
        lemma_without_trigger(bindings, binding, index);
        let rest = bindings.remove(index);
        assert forall|i: int| 0 <= i < rest.len() implies !(#[trigger] rest[i]).triggers_like(
            binding,
        ) by {
            let source = if i < index {
                i
            } else {
                i + 1
            };
            assert(rest[i] == bindings[source]);
            if source < index {
                assert(!bindings[source].triggers_like(bindings[index]));
            } else {
                assert(!bindings[index].triggers_like(bindings[source]));
            }
        }
    } else {
        assert forall|i: int| 0 <= i < bindings.len() implies !(
        #[trigger] bindings[i]).triggers_like(binding) by {
            assert(!matching(i));
        }
        lemma_without_trigger(bindings, binding, bindings.len() as int);
    }
}

/// Whether a binding answers to a key press.
pub open spec fn answers(binding: KeyBinding, key_code: KeyCode, modifiers: BindingModifiers) -> bool {
    binding.key_code == key_code && binding.modifiers.included_in(modifiers)
}

/// Whether the binding at an index is the one that a key press starts: it has
/// the most modifiers of those that answer, and comes last among those with as
/// many.
pub open spec fn chosen(
    bindings: Seq<KeyBinding>,
    key_code: KeyCode,
    modifiers: BindingModifiers,
    index: int,
) -> bool {
    &&& 0 <= index < bindings.len()
    &&& answers(bindings[index], key_code, modifiers)
    &&& forall|j: int|
        0 <= j < bindings.len() && answers(#[trigger] bindings[j], key_code, modifiers) ==> {
            ||| bindings[j].modifiers.size() < bindings[index].modifiers.size()
            ||| bindings[j].modifiers.size() == bindings[index].modifiers.size() && j <= index
        }
}

/// The action that a key press starts.
pub open spec fn bound_action(
    bindings: Seq<KeyBinding>,
    key_code: KeyCode,
    modifiers: BindingModifiers,
) -> Option<BindingAction> {
    if exists|i: int| chosen(bindings, key_code, modifiers, i) {
        Some(bindings[choose|i: int| chosen(bindings, key_code, modifiers, i)].action)
    } else {
        None
    }
}

/// Resolved terminal key bindings.
pub struct TerminalKeyBindings {
    bindings: Vec<KeyBinding>,
}

impl View for TerminalKeyBindings {
    type V = Seq<KeyBinding>;

    closed spec fn view(&self) -> Seq<KeyBinding> {
        self.bindings@
    }
}

impl TerminalKeyBindings {
    /// Resolves the configured bindings on top of the default ones.
    pub fn from_config(config: &BindingsConfig) -> (bindings: Self)
        ensures
            bindings@ == configured(config.keys@),
            well_formed(bindings@),
    {
        let mut bindings: Vec<KeyBinding> = vec![
            make_default(KeyCode::Enter, true, true, BindingAction::Toggle3DMode),
            make_default(KeyCode::KeyM, true, true, BindingAction::ToggleMobiusMode),
            make_default(KeyCode::PageUp, false, true, BindingAction::ScrollPageUp),
            make_default(KeyCode::PageDown, false, true, BindingAction::ScrollPageDown),
            make_default(KeyCode::ArrowUp, false, true, BindingAction::ScrollUp),
            make_default(KeyCode::ArrowDown, false, true, BindingAction::ScrollDown),
            make_default(KeyCode::ArrowUp, true, true, BindingAction::IncreaseWarp),
            make_default(KeyCode::ArrowDown, true, true, BindingAction::DecreaseWarp),
            make_default(KeyCode::KeyC, true, true, BindingAction::Copy),
            make_default(KeyCode::KeyV, true, true, BindingAction::Paste),
            make_default(KeyCode::Equal, true, false, BindingAction::IncreaseFontSize),
            make_default(KeyCode::NumpadAdd, true, false, BindingAction::IncreaseFontSize),
            make_default(KeyCode::Minus, true, false, BindingAction::DecreaseFontSize),
            make_default(KeyCode::NumpadSubtract, true, false, BindingAction::DecreaseFontSize),
            make_default(KeyCode::Digit0, true, true, BindingAction::ResetFontSize),
            make_default(KeyCode::Numpad0, true, true, BindingAction::ResetFontSize),
        ];
        assert(bindings@ =~= default_bindings());
        proof {
            lemma_default_bindings_are_well_formed();
        }
        let mut i: usize = 0;
        assert(config.keys@.take(0) =~= Seq::<KeyBindingConfig>::empty());
        while i < config.keys.len()
            invariant
                i <= config.keys.len(),
                bindings@ == configured(config.keys@.take(i as int)),
                well_formed(bindings@),
            decreases config.keys.len() - i,
        {
            assert(config.keys@.take(i + 1).drop_last() =~= config.keys@.take(i as int));
            if let Some(binding) = KeyBinding::from_config(&config.keys[i]) {
                let ghost before = bindings@;
                let mut index: usize = 0;
                while index < bindings.len() && !bindings[index].same_trigger(&binding)
                    invariant
                        index <= bindings.len(),
                        forall|k: int|
                            0 <= k < index ==> !(#[trigger] bindings[k]).triggers_like(binding),
                    decreases bindings.len() - index,
                {
                    index = index + 1;
                }
                proof {
                    lemma_without_trigger(before, binding, index as int);
                    lemma_with_binding_is_well_formed(before, binding);
                }
                if index < bindings.len() {
                    bindings.remove(index);
                }
                if binding.action != BindingAction::Disabled {
                    bindings.push(binding);
                }
            }
            i = i + 1;
        }
        assert(config.keys@.take(i as int) =~= config.keys@);
        TerminalKeyBindings { bindings }
    }

    /// The action that a key press starts: that of the binding with the most
    /// modifiers among those whose modifiers are all held.
    pub fn action_for(&self, key_code: KeyCode, modifiers: BindingModifiers) -> (action: Option<
        BindingAction,
    >)
        ensures
            action == bound_action(self@, key_code, modifiers),
    {
        let mut best: Option<usize> = None;
        let mut i: usize = 0;
        while i < self.bindings.len()
            invariant
                i <= self.bindings.len(),
                match best {
                    Some(index) => index < i && chosen(
                        self.bindings@.take(i as int),
                        key_code,
                        modifiers,
                        index as int,
                    ),
                    None => forall|j: int|
                        0 <= j < i ==> !answers(
                            #[trigger] self.bindings@.take(i as int)[j],
                            key_code,
                            modifiers,
                        ),
                },
            decreases self.bindings.len() - i,
        {
            let binding = self.bindings[i];
            let ghost shorter = self.bindings@.take(i as int);
            let ghost longer = self.bindings@.take(i + 1);
            assert forall|j: int| 0 <= j < i implies #[trigger] longer[j] == shorter[j] by {}
            if binding.key_code == key_code && binding.modifiers.matches(modifiers) {
                match best {
                    Some(index) => {
                        if binding.modifiers.count() >= self.bindings[index].modifiers.count() {
                            best = Some(i);
                        }
                    },
                    None => {
                        best = Some(i);
                    },
                }
            }
            i = i + 1;
        }
        assert(self.bindings@.take(i as int) =~= self.bindings@);
        proof {
            lemma_bound_action(self@, key_code, modifiers, best);
        }
        match best {
            Some(index) => Some(self.bindings[index].action),
            None => None,
        }
    }
}

proof fn lemma_bound_action(
    bindings: Seq<KeyBinding>,
    key_code: KeyCode,
    modifiers: BindingModifiers,
    best: Option<usize>,
)
    requires
        match best {
            Some(index) => chosen(bindings, key_code, modifiers, index as int),
            None => forall|j: int|
                0 <= j < bindings.len() ==> !answers(
                    #[trigger] bindings[j],
                    key_code,
                    modifiers,
                ),
        },
    ensures
        bound_action(bindings, key_code, modifiers) == (match best {
            Some(index) => Some(bindings[index as int].action),
            None => None,
        }),
{
    if let Some(index) = best {
        let picked = choose|i: int| chosen(bindings, key_code, modifiers, i);
        assert(chosen(bindings, key_code, modifiers, picked));
        assert(answers(bindings[picked], key_code, modifiers));
        assert(answers(bindings[index as int], key_code, modifiers));
    } else if exists|i: int| chosen(bindings, key_code, modifiers, i) {
        let picked = choose|i: int| chosen(bindings, key_code, modifiers, i);
        assert(answers(bindings[picked], key_code, modifiers));
    }
}

/// A key press whose modifiers are exactly those of a binding starts that
/// binding, whatever other bindings of the key also answer.
pub proof fn exact_trigger_wins(bindings: Seq<KeyBinding>, index: int)
    requires
        well_formed(bindings),
        0 <= index < bindings.len(),
    ensures
        bound_action(bindings, bindings[index].key_code, bindings[index].modifiers) == Some(
            bindings[index].action,
        ),
{
    let binding = bindings[index];
    assert forall|j: int|
        0 <= j < bindings.len() && answers(
            #[trigger] bindings[j],
            binding.key_code,
            binding.modifiers,
        ) implies {
        ||| bindings[j].modifiers.size() < bindings[index].modifiers.size()
        ||| bindings[j].modifiers.size() == bindings[index].modifiers.size() && j <= index
    } by {
        if j != index {
            if j < index {
                assert(!bindings[j].triggers_like(bindings[index]));
            } else {
                assert(!bindings[index].triggers_like(bindings[j]));
            }
        }
    }
    assert(chosen(bindings, binding.key_code, binding.modifiers, index));
    let picked = choose|i: int| chosen(bindings, binding.key_code, binding.modifiers, i);
    assert(chosen(bindings, binding.key_code, binding.modifiers, picked));
    assert(answers(bindings[picked], binding.key_code, binding.modifiers));
    assert(answers(bindings[index], binding.key_code, binding.modifiers));
}

proof fn lemma_configured_is_well_formed(entries: Seq<KeyBindingConfig>)
    ensures
        well_formed(configured(entries)),
    decreases entries.len(),
{
    if entries.len() == 0 {
        lemma_default_bindings_are_well_formed();
    } else {
        lemma_configured_is_well_formed(entries.drop_last());
        if let Some(binding) = binding_of(entries.last()) {
            lemma_with_binding_is_well_formed(configured(entries.drop_last()), binding);
        }
    }
}

/// The last configuration entry decides about its trigger: a key press with
/// exactly that trigger starts its action, and where it disables the trigger, no
/// binding with that trigger is left.
pub proof fn last_entry_decides(entries: Seq<KeyBindingConfig>)
    requires
        entries.len() > 0,
        binding_of(entries.last()) is Some,
    ensures
        ({
            let binding = binding_of(entries.last())->0;
            if binding.action == BindingAction::Disabled {
                forall|i: int|
                    0 <= i < configured(entries).len() ==> !(
                    #[trigger] configured(entries)[i]).triggers_like(binding)
            } else {
                bound_action(configured(entries), binding.key_code, binding.modifiers) == Some(
                    binding.action,
                )
            }
        }),
{
    let binding = binding_of(entries.last())->0;
    let before = configured(entries.drop_last());
    lemma_configured_is_well_formed(entries.drop_last());
    lemma_with_binding_is_well_formed(before, binding);
    if binding.action != BindingAction::Disabled {
        exact_trigger_wins(configured(entries), configured(entries).len() - 1);
    }
}

/// A configuration entry leaves the bindings of every other trigger alone.
pub proof fn other_triggers_are_kept(
    bindings: Seq<KeyBinding>,
    binding: KeyBinding,
    other: KeyBinding,
)
    requires
        !other.triggers_like(binding),
    ensures
        with_binding(bindings, binding).contains(other) <==> bindings.contains(other),
{
    let pred = |existing: KeyBinding| !existing.triggers_like(binding);
    let rest = without_trigger(bindings, binding);
    lemma_filter_keeps(bindings, pred, other);
    if with_binding(bindings, binding).contains(other) {
        let i = choose|i: int|
            0 <= i < with_binding(bindings, binding).len() && with_binding(bindings, binding)[i]
                == other;
        assert(rest[i] == other);
        assert(rest.contains(other));
    }
    if rest.contains(other) {
        let i = choose|i: int| 0 <= i < rest.len() && rest[i] == other;
        assert(with_binding(bindings, binding)[i] == other);
    }
}

proof fn lemma_filter_keeps(
    bindings: Seq<KeyBinding>,
    pred: spec_fn(KeyBinding) -> bool,
    other: KeyBinding,
)
    requires
        pred(other),
    ensures
        bindings.filter(pred).contains(other) <==> bindings.contains(other),
    decreases bindings.len(),
{
    reveal(Seq::filter);
    if bindings.len() > 0 {
        let rest = bindings.drop_last();
        lemma_filter_keeps(rest, pred, other);
        let kept = rest.filter(pred);
        if bindings.contains(other) {
            let i = choose|i: int| 0 <= i < bindings.len() && bindings[i] == other;
            if i < rest.len() {
                assert(rest[i] == other);
                let k = choose|k: int| 0 <= k < kept.len() && kept[k] == other;
                assert(bindings.filter(pred)[k] == other);
            } else {
                assert(bindings.filter(pred).last() == other);
                assert(bindings.filter(pred)[kept.len() as int] == other);
            }
        }
        if bindings.filter(pred).contains(other) {
            let k = choose|k: int|
                0 <= k < bindings.filter(pred).len() && bindings.filter(pred)[k] == other;
            if k < kept.len() {
                assert(kept[k] == other);
                let i = choose|i: int| 0 <= i < rest.len() && rest[i] == other;
                assert(bindings[i] == other);
            } else {
                assert(bindings[bindings.len() - 1] == other);
            }
        }
    }
}

/// Whatever follows, a trigger that has been refused stays refused: a part that
/// is neither a modifier nor empty cannot follow the name of the key.
pub proof fn nothing_follows_the_key(
    before: Seq<Seq<char>>,
    part: Seq<char>,
    after: Seq<Seq<char>>,
)
    requires
        scan_parts(before) matches Some((_, key)) && key is Some,
        lowered(trimmed(part)).len() > 0,
        modifier_named(lowered(trimmed(part))) is None,
    ensures
        scan_parts(before.push(part) + after) is None,
    decreases after.len(),
{
    if after.len() == 0 {
        assert(before.push(part) + after =~= before.push(part));
        assert(before.push(part).drop_last() =~= before);
    } else {
        nothing_follows_the_key(before, part, after.drop_last());
        assert((before.push(part) + after).drop_last() =~= before.push(part) + after.drop_last());
    }
}

/// The shortcuts that hold where nothing is configured: what each key starts for
/// every set of held modifiers.
#[verifier::rlimit(60)]
pub proof fn default_shortcuts(key: KeyCode, held: BindingModifiers)
    ensures
        bound_action(configured(Seq::empty()), key, held) == (
            match key {
                KeyCode::Enter if held.control && held.alt => Some(BindingAction::Toggle3DMode),
                KeyCode::KeyM if held.control && held.alt => Some(BindingAction::ToggleMobiusMode),
                KeyCode::PageUp if held.alt => Some(BindingAction::ScrollPageUp),
                KeyCode::PageDown if held.alt => Some(BindingAction::ScrollPageDown),
                KeyCode::ArrowUp if held.alt => Some(
                    if held.control {
                        BindingAction::IncreaseWarp
                    } else {
                        BindingAction::ScrollUp
                    },
                ),
                KeyCode::ArrowDown if held.alt => Some(
                    if held.control {
                        BindingAction::DecreaseWarp
                    } else {
                        BindingAction::ScrollDown
                    },
                ),
                KeyCode::KeyC if held.control && held.alt => Some(BindingAction::Copy),
                KeyCode::KeyV if held.control && held.alt => Some(BindingAction::Paste),
                KeyCode::Equal if held.control => Some(BindingAction::IncreaseFontSize),
                KeyCode::NumpadAdd if held.control => Some(BindingAction::IncreaseFontSize),
                KeyCode::Minus if held.control => Some(BindingAction::DecreaseFontSize),
                KeyCode::NumpadSubtract if held.control => Some(BindingAction::DecreaseFontSize),
                KeyCode::Digit0 if held.control && held.alt => Some(BindingAction::ResetFontSize),
                KeyCode::Numpad0 if held.control && held.alt => Some(BindingAction::ResetFontSize),
                _ => None,
            }),
{
    let bindings = default_bindings();
    assert(configured(Seq::empty()) == bindings);
    assert(bindings.len() == 16);
    let index: int = match key {
        KeyCode::Enter if held.control && held.alt => 0,
        KeyCode::KeyM if held.control && held.alt => 1,
        KeyCode::PageUp if held.alt => 2,
        KeyCode::PageDown if held.alt => 3,
        KeyCode::ArrowUp if held.alt => if held.control {
            6
        } else {
            4
        },
        KeyCode::ArrowDown if held.alt => if held.control {
            7
        } else {
            5
        },
        KeyCode::KeyC if held.control && held.alt => 8,
        KeyCode::KeyV if held.control && held.alt => 9,
        KeyCode::Equal if held.control => 10,
        KeyCode::NumpadAdd if held.control => 11,
        KeyCode::Minus if held.control => 12,
        KeyCode::NumpadSubtract if held.control => 13,
        KeyCode::Digit0 if held.control && held.alt => 14,
        KeyCode::Numpad0 if held.control && held.alt => 15,
        _ => 16,
    };
    assert forall|j: int|
        0 <= j < bindings.len() && answers(#[trigger] bindings[j], key, held) implies j == index
        || bindings[j].modifiers.size() < bindings[index].modifiers.size() by {
        lemma_default_at(j);
    }
    if index < 16 {
        lemma_default_at(index);
        lemma_bound_action(bindings, key, held, Some(index as usize));
    } else {
        assert forall|j: int| 0 <= j < bindings.len() implies !answers(
            #[trigger] bindings[j],
            key,
            held,
        ) by {
            lemma_default_at(j);
        }
        lemma_bound_action(bindings, key, held, None);
    }
}

proof fn lemma_default_at(j: int)
    requires
        0 <= j < 16,
    ensures
        ({
            let binding = default_bindings()[j];
            &&& j == 0 ==> binding.key_code == KeyCode::Enter && binding.action
                == BindingAction::Toggle3DMode && binding.modifiers == (BindingModifiers {
                control: true,
                alt: true,
                shift: false,
                super_key: false,
            })
            &&& j == 1 ==> binding.key_code == KeyCode::KeyM && binding.action
                == BindingAction::ToggleMobiusMode && binding.modifiers == (BindingModifiers {
                control: true,
                alt: true,
                shift: false,
                super_key: false,
            })
            &&& j == 2 ==> binding.key_code == KeyCode::PageUp && binding.action
                == BindingAction::ScrollPageUp && binding.modifiers == (BindingModifiers {
                control: false,
                alt: true,
                shift: false,
                super_key: false,
            })
            &&& j == 3 ==> binding.key_code == KeyCode::PageDown && binding.action
                == BindingAction::ScrollPageDown && binding.modifiers == (BindingModifiers {
                control: false,
                alt: true,
                shift: false,
                super_key: false,
            })
            &&& j == 4 ==> binding.key_code == KeyCode::ArrowUp && binding.action
                == BindingAction::ScrollUp && binding.modifiers == (BindingModifiers {
                control: false,
                alt: true,
                shift: false,
                super_key: false,
            })
            &&& j == 5 ==> binding.key_code == KeyCode::ArrowDown && binding.action
                == BindingAction::ScrollDown && binding.modifiers == (BindingModifiers {
                control: false,
                alt: true,
                shift: false,
                super_key: false,
            })
            &&& j == 6 ==> binding.key_code == KeyCode::ArrowUp && binding.action
                == BindingAction::IncreaseWarp && binding.modifiers == (BindingModifiers {
                control: true,
                alt: true,
                shift: false,
                super_key: false,
            })
            &&& j == 7 ==> binding.key_code == KeyCode::ArrowDown && binding.action
                == BindingAction::DecreaseWarp && binding.modifiers == (BindingModifiers {
                control: true,
                alt: true,
                shift: false,
                super_key: false,
            })
            &&& j == 8 ==> binding.key_code == KeyCode::KeyC && binding.action
                == BindingAction::Copy && binding.modifiers == (BindingModifiers {
                control: true,
                alt: true,
                shift: false,
                super_key: false,
            })
            &&& j == 9 ==> binding.key_code == KeyCode::KeyV && binding.action
                == BindingAction::Paste && binding.modifiers == (BindingModifiers {
                control: true,
                alt: true,
                shift: false,
                super_key: false,
            })
            &&& j == 10 ==> binding.key_code == KeyCode::Equal && binding.action
                == BindingAction::IncreaseFontSize && binding.modifiers == (BindingModifiers {
                control: true,
                alt: false,
                shift: false,
                super_key: false,
            })
            &&& j == 11 ==> binding.key_code == KeyCode::NumpadAdd && binding.action
                == BindingAction::IncreaseFontSize && binding.modifiers == (BindingModifiers {
                control: true,
                alt: false,
                shift: false,
                super_key: false,
            })
            &&& j == 12 ==> binding.key_code == KeyCode::Minus && binding.action
                == BindingAction::DecreaseFontSize && binding.modifiers == (BindingModifiers {
                control: true,
                alt: false,
                shift: false,
                super_key: false,
            })
            &&& j == 13 ==> binding.key_code == KeyCode::NumpadSubtract && binding.action
                == BindingAction::DecreaseFontSize && binding.modifiers == (BindingModifiers {
                control: true,
                alt: false,
                shift: false,
                super_key: false,
            })
            &&& j == 14 ==> binding.key_code == KeyCode::Digit0 && binding.action
                == BindingAction::ResetFontSize && binding.modifiers == (BindingModifiers {
                control: true,
                alt: true,
                shift: false,
                super_key: false,
            })
            &&& j == 15 ==> binding.key_code == KeyCode::Numpad0 && binding.action
                == BindingAction::ResetFontSize && binding.modifiers == (BindingModifiers {
                control: true,
                alt: true,
                shift: false,
                super_key: false,
            })
        }),
{
}

/// How many of four flags are set.
pub open spec fn flags_set(a: bool, b: bool, c: bool, d: bool) -> int {
    (if a {
        1int
    } else {
        0
    }) + (if b {
        1int
    } else {
        0
    }) + (if c {
        1int
    } else {
        0
    }) + (if d {
        1int
    } else {
        0
    })
}

/// A key press starts the action of a binding of its key all of whose modifiers
/// are held. No other such binding has more modifiers, and a later one not even as
/// many. It starts nothing only where there is no such binding.
pub proof fn most_specific_binding_is_started(
    bindings: Seq<KeyBinding>,
    key: KeyCode,
    held: BindingModifiers,
) -> (index: int)
    ensures
        match bound_action(bindings, key, held) {
            Some(action) => {
                &&& 0 <= index < bindings.len()
                &&& fits(bindings[index], key, held)
                &&& bindings[index].action == action
                &&& forall|k: int|
                    0 <= k < bindings.len() && fits(#[trigger] bindings[k], key, held) ==> {
                        &&& wanted_modifiers(bindings[k]) <= wanted_modifiers(bindings[index])
                        &&& k > index ==> wanted_modifiers(bindings[k]) < wanted_modifiers(
                            bindings[index],
                        )
                    }
            },
            None => forall|k: int|
                0 <= k < bindings.len() ==> !fits(#[trigger] bindings[k], key, held),
        },
{
    lemma_best_binding(bindings, key, held, bindings.len() as int);
    assert forall|k: int| 0 <= k < bindings.len() implies fits(#[trigger] bindings[k], key, held)
        == answers(bindings[k], key, held) && wanted_modifiers(bindings[k])
        == bindings[k].modifiers.size() by {}
    match best_binding(bindings, key, held, bindings.len() as int) {
        Some(index) => {
            assert(chosen(bindings, key, held, index));
            let picked = choose|i: int| chosen(bindings, key, held, i);
            assert(chosen(bindings, key, held, picked));
            assert(answers(bindings[picked], key, held));
            assert(answers(bindings[index], key, held));
            assert(picked == index);
            index
        },
        None => {
            assert forall|i: int| !chosen(bindings, key, held, i) by {
                if chosen(bindings, key, held, i) {
                    assert(answers(bindings[i], key, held));
                }
            }
            0
        },
    }
}

/// Whether a binding is one of a key, and none of its modifiers is missing.
pub open spec fn fits(binding: KeyBinding, key: KeyCode, held: BindingModifiers) -> bool {
    let wanted = binding.modifiers;
    &&& binding.key_code == key
    &&& !(wanted.control && !held.control)
    &&& !(wanted.alt && !held.alt)
    &&& !(wanted.shift && !held.shift)
    &&& !(wanted.super_key && !held.super_key)
}

/// How many modifiers a binding wants.
pub open spec fn wanted_modifiers(binding: KeyBinding) -> int {
    flags_set(
        binding.modifiers.control,
        binding.modifiers.alt,
        binding.modifiers.shift,
        binding.modifiers.super_key,
    )
}

/// The most specific binding among the first ones.
spec fn best_binding(
    bindings: Seq<KeyBinding>,
    key: KeyCode,
    held: BindingModifiers,
    n: int,
) -> Option<int>
    decreases n,
{
    if n <= 0 {
        None
    } else {
        let before = best_binding(bindings, key, held, n - 1);
        if !answers(bindings[n - 1], key, held) {
            before
        } else {
            match before {
                Some(index) if bindings[index].modifiers.size() > bindings[n
                    - 1].modifiers.size() => before,
                _ => Some(n - 1),
            }
        }
    }
}

proof fn lemma_best_binding(
    bindings: Seq<KeyBinding>,
    key: KeyCode,
    held: BindingModifiers,
    n: int,
)
    requires
        0 <= n <= bindings.len(),
    ensures
        match best_binding(bindings, key, held, n) {
            Some(index) => {
                &&& 0 <= index < n
                &&& answers(bindings[index], key, held)
                &&& forall|j: int|
                    0 <= j < n && answers(#[trigger] bindings[j], key, held) ==> {
                        ||| bindings[j].modifiers.size() < bindings[index].modifiers.size()
                        ||| bindings[j].modifiers.size() == bindings[index].modifiers.size() && j
                            <= index
                    }
            },
            None => forall|j: int| 0 <= j < n ==> !answers(#[trigger] bindings[j], key, held),
        },
    decreases n,
{
    if n > 0 {
        lemma_best_binding(bindings, key, held, n - 1);
    }
}

/// Joining sets of modifiers keeps every modifier of either, and adds no other.
pub proof fn joined_modifiers_are_those_of_either(left: BindingModifiers, right: BindingModifiers)
    ensures
        left.joined(right) == right.joined(left),
        left.joined(left) == left,
        left.joined(no_modifiers()) == left,
        left.included_in(left.joined(right)),
        left.joined(right).included_in(left) <==> right.included_in(left),
        left.included_in(right) && right.included_in(left) ==> left == right,
        no_modifiers().included_in(left),
        no_modifiers().size() == 0,
        left.included_in(right) ==> left.size() <= right.size(),
        left.joined(right).size() <= left.size() + right.size(),
{
}

/// Each modifier is one of its own, and named by these words alone.
pub proof fn modifier_names(name: Seq<char>)
    ensures
        ({
            let set = match modifier_named(name) {
                Some(modifier) => modifier.alone(),
                None => no_modifiers(),
            };
            &&& set.control <==> name == "control"@ || name == "ctrl"@
            &&& set.alt <==> name == "alt"@
            &&& set.shift <==> name == "shift"@
            &&& set.super_key <==> name == "super"@ || name == "cmd"@ || name == "command"@ || name
                == "meta"@
            &&& set.size() == (if modifier_named(name) is Some {
                1nat
            } else {
                0nat
            })
            &&& !no_modifiers().control && !no_modifiers().alt
            &&& !no_modifiers().shift && !no_modifiers().super_key
        }),
{
    reveal_strlit("control");
    reveal_strlit("ctrl");
    reveal_strlit("alt");
    reveal_strlit("shift");
    reveal_strlit("super");
    reveal_strlit("cmd");
    reveal_strlit("command");
    reveal_strlit("meta");
    assert(name == "control"@ ==> name.len() == 7 && name[3] == 't');
    assert(name == "ctrl"@ ==> name.len() == 4 && name[0] == 'c');
    assert(name == "alt"@ ==> name.len() == 3 && name[0] == 'a');
    assert(name == "shift"@ ==> name.len() == 5 && name[1] == 'h');
    assert(name == "super"@ ==> name.len() == 5 && name[1] == 'u');
    assert(name == "cmd"@ ==> name.len() == 3 && name[0] == 'c');
    assert(name == "command"@ ==> name.len() == 7 && name[3] == 'm');
    assert(name == "meta"@ ==> name.len() == 4 && name[0] == 'm');
}

/// The parts of a text hold no bar, and with bars between them they are the text.
pub proof fn parts_are_between_the_bars(text: Seq<char>, part: Seq<char>)
    requires
        !part.contains('|'),
    ensures
        parts_of(Seq::empty()) == seq![Seq::<char>::empty()],
        parts_of(part) == seq![part],
        parts_of(text.push('|') + part) == parts_of(text).push(part),
    decreases part.len(),
{
    if part.len() == 0 {
        assert(text.push('|') + part =~= text.push('|'));
        assert(text.push('|').drop_last() =~= text);
        assert(part =~= Seq::<char>::empty());
    } else {
        let less = part.drop_last();
        assert forall|k: int| 0 <= k < less.len() implies less[k] != '|' by {
            assert(part.contains(part[k]));
        }
        assert(part.contains(part[part.len() - 1]));
        parts_are_between_the_bars(text, less);
        let whole = text.push('|') + part;
        assert(whole.drop_last() =~= text.push('|') + less);
        assert(whole.last() == part.last());
        assert(less.push(part.last()) =~= part);
        assert(parts_of(text).push(less).drop_last() =~= parts_of(text));
        assert(seq![less].drop_last() =~= Seq::<Seq<char>>::empty());
        assert(parts_of(part) =~= seq![part]);
    }
}

/// What the parts of a trigger say: a modifier is in it exactly where one of the
/// parts names it, in whatever case and with whatever space around, and its key is
/// the one that a part names.
pub proof fn triggers_say_what_their_parts_name(parts: Seq<Seq<char>>)
    requires
        scan_parts(parts) is Some,
    ensures
        ({
            let (modifiers, key) = scan_parts(parts)->0;
            let named = |word: Seq<char>|
                exists|i: int| 0 <= i < parts.len() && lowered(trimmed(#[trigger] parts[i])) == word;
            &&& modifiers.control <==> named("control"@) || named("ctrl"@)
            &&& modifiers.alt <==> named("alt"@)
            &&& modifiers.shift <==> named("shift"@)
            &&& modifiers.super_key <==> named("super"@) || named("cmd"@) || named("command"@)
                || named("meta"@)
            &&& key is Some ==> exists|i: int|
                0 <= i < parts.len() && key_named(lowered(trimmed(#[trigger] parts[i]))) == key
        }),
    decreases parts.len(),
{
    if parts.len() > 0 {
        let before = parts.drop_last();
        let word = lowered(trimmed(parts.last()));
        triggers_say_what_their_parts_name(before);
        modifier_names(word);
        lemma_named(parts, "control"@);
        lemma_named(parts, "ctrl"@);
        lemma_named(parts, "alt"@);
        lemma_named(parts, "shift"@);
        lemma_named(parts, "super"@);
        lemma_named(parts, "cmd"@);
        lemma_named(parts, "command"@);
        lemma_named(parts, "meta"@);
        lemma_words_are_not_empty();
        let (modifiers, key) = scan_parts(parts)->0;
        let (_, earlier) = scan_parts(before)->0;
        if key is Some {
            if earlier is Some {
                let i = choose|i: int|
                    0 <= i < before.len() && key_named(lowered(trimmed(#[trigger] before[i])))
                        == earlier;
                assert(parts[i] == before[i]);
            } else {
                assert(key_named(lowered(trimmed(parts[parts.len() - 1]))) == key);
            }
        }
    }
}

proof fn lemma_named(parts: Seq<Seq<char>>, word: Seq<char>)
    requires
        parts.len() > 0,
    ensures
        (exists|i: int| 0 <= i < parts.len() && lowered(trimmed(#[trigger] parts[i])) == word)
            <==> (exists|i: int|
            0 <= i < parts.drop_last().len() && lowered(trimmed(#[trigger] parts.drop_last()[i]))
                == word) || lowered(trimmed(parts.last())) == word,
{
    let before = parts.drop_last();
    if exists|i: int| 0 <= i < before.len() && lowered(trimmed(#[trigger] before[i])) == word {
        let i = choose|i: int|
            0 <= i < before.len() && lowered(trimmed(#[trigger] before[i])) == word;
        assert(parts[i] == before[i]);
    }
    if exists|i: int| 0 <= i < parts.len() && lowered(trimmed(#[trigger] parts[i])) == word {
        let i = choose|i: int|
            0 <= i < parts.len() && lowered(trimmed(#[trigger] parts[i])) == word;
        if i < before.len() {
            assert(parts[i] == before[i]);
        }
    }
    assert(parts[parts.len() - 1] == parts.last());
}

proof fn lemma_words_are_not_empty()
    ensures
        "control"@.len() > 0,
        "ctrl"@.len() > 0,
        "alt"@.len() > 0,
        "shift"@.len() > 0,
        "super"@.len() > 0,
        "cmd"@.len() > 0,
        "command"@.len() > 0,
        "meta"@.len() > 0,
{
    reveal_strlit("control");
    reveal_strlit("ctrl");
    reveal_strlit("alt");
    reveal_strlit("shift");
    reveal_strlit("super");
    reveal_strlit("cmd");
    reveal_strlit("command");
    reveal_strlit("meta");
}

/// A trigger of one key and any modifiers is read: parts that name modifiers, or
/// nothing, can stand before and after the name of the key.
pub proof fn triggers_with_one_key_are_read(
    before: Seq<Seq<char>>,
    part: Seq<char>,
    after: Seq<Seq<char>>,
)
    requires
        forall|i: int|
            0 <= i < before.len() ==> {
                let word = lowered(trimmed(#[trigger] before[i]));
                word.len() == 0 || modifier_named(word) is Some
            },
        forall|i: int|
            0 <= i < after.len() ==> {
                let word = lowered(trimmed(#[trigger] after[i]));
                word.len() == 0 || modifier_named(word) is Some
            },
        lowered(trimmed(part)).len() > 0,
        modifier_named(lowered(trimmed(part))) is None,
    ensures
        scan_parts(before + after) matches Some((_, key)) && key is None,
        scan_parts(before.push(part) + after) matches Some((_, key)) && key == key_named(
            lowered(trimmed(part)),
        ),
    decreases before.len() + after.len(),
{
    if after.len() > 0 {
        let less = after.drop_last();
        assert forall|i: int| 0 <= i < less.len() implies {
            let word = lowered(trimmed(#[trigger] less[i]));
            word.len() == 0 || modifier_named(word) is Some
        } by {
            assert(less[i] == after[i]);
        }
        triggers_with_one_key_are_read(before, part, less);
        assert((before + after).drop_last() =~= before + less);
        assert((before + after).last() == after.last());
        assert((before.push(part) + after).drop_last() =~= before.push(part) + less);
        assert((before.push(part) + after).last() == after.last());
        assert(after[after.len() - 1] == after.last());
    } else if before.len() > 0 {
        let less = before.drop_last();
        assert forall|i: int| 0 <= i < less.len() implies {
            let word = lowered(trimmed(#[trigger] less[i]));
            word.len() == 0 || modifier_named(word) is Some
        } by {
            assert(less[i] == before[i]);
        }
        triggers_with_one_key_are_read(less, part, after);
        assert(before + after =~= before);
        assert(less + after =~= less);
        assert(before[before.len() - 1] == before.last());
        assert(before.push(part) + after =~= before.push(part));
        assert(before.push(part).drop_last() =~= before);
    } else {
        assert(before + after =~= Seq::<Seq<char>>::empty());
        assert(before.push(part) + after =~= seq![part]);
        assert(seq![part].drop_last() =~= Seq::<Seq<char>>::empty());
    }
}

/// An entry binds its own action. Its trigger is read from both of its fields, the
/// key first; an entry that names no key is ignored.
pub proof fn entries_bind_their_action(entries: Seq<KeyBindingConfig>, entry: KeyBindingConfig)
    ensures
        match (binding_of(entry), scan_parts(parts_of(entry.key@) + parts_of(entry.with@))) {
            (Some(binding), Some((modifiers, Some(key)))) => binding.action == entry.action
                && binding.key_code == key && binding.modifiers == modifiers,
            (Some(_), _) => false,
            (None, Some((_, Some(_)))) => false,
            (None, _) => configured(entries.push(entry)) == configured(entries),
        },
{
    assert(entries.push(entry).drop_last() =~= entries);
}

/// A configured binding takes the place of the one with its trigger, and a
/// disabled one leaves the trigger without any.
pub proof fn configured_bindings_replace(
    bindings: Seq<KeyBinding>,
    binding: KeyBinding,
    other: KeyBinding,
)
    requires
        well_formed(bindings),
        other.key_code == binding.key_code,
        other.modifiers == binding.modifiers,
    ensures
        with_binding(bindings, binding).contains(other) <==> other == binding && binding.action
            != BindingAction::Disabled,
{
    lemma_with_binding_is_well_formed(bindings, binding);
    let rest = without_trigger(bindings, binding);
    let all = with_binding(bindings, binding);
    if all.contains(other) {
        let i = choose|i: int| 0 <= i < all.len() && all[i] == other;
        if i < rest.len() {
            assert(!rest[i].triggers_like(binding));
        }
    }
    if other == binding && binding.action != BindingAction::Disabled {
        assert(all[rest.len() as int] == binding);
    }
}

} // verus!
