//! Keybinds: modifier masks, modifier names, and the table from a key
//! combination to the command it runs.
use vstd::prelude::*;

verus! {

/// Modifier bits, as the X protocol numbers them (the same in key and button
/// state masks and in modifier masks).
pub const SHIFT: u32 = 1;
pub const LOCK: u32 = 2;
pub const CONTROL: u32 = 4;
pub const MOD1: u32 = 8;
pub const MOD2: u32 = 16;
pub const MOD4: u32 = 64;

/// The modifier bits a keybind can be made of.
pub const BINDABLE: u32 = 95;

/// The commands a keybind can run on the window manager.
#[derive(Debug, PartialEq)]
pub enum Command {
    GotoWorkspace(usize),
    SendWindowToWorkspace(usize),
    KillFocused,
    NextWin,
    PrevWin,
    NextLayout,
    PrevLayout,
    RotateWindowsUp,
    RotateWindowsDown,
    SwapWithNextSlave,
    SwapWithPrevSlave,
    ChangeMaster,
    ToggleReservedSpace,
    ToggleOol,
    Fullscreen,
    NextScreen,
    PrevScreen,
    SendWindowToNextScreen,
    SendWindowToPrevScreen,
    /// Runs an external program; arguments are separated by spaces.
    Spawn(String),
    Quit,
}

impl Command {
    /// An exact copy of the command.
    pub fn duplicate(&self) -> (r: Command)
        ensures
            r == *self,
    {
        match self {
            Command::GotoWorkspace(k) => Command::GotoWorkspace(*k),
            Command::SendWindowToWorkspace(k) => Command::SendWindowToWorkspace(*k),
            Command::KillFocused => Command::KillFocused,
            Command::NextWin => Command::NextWin,
            Command::PrevWin => Command::PrevWin,
            Command::NextLayout => Command::NextLayout,
            Command::PrevLayout => Command::PrevLayout,
            Command::RotateWindowsUp => Command::RotateWindowsUp,
            Command::RotateWindowsDown => Command::RotateWindowsDown,
            Command::SwapWithNextSlave => Command::SwapWithNextSlave,
            Command::SwapWithPrevSlave => Command::SwapWithPrevSlave,
            Command::ChangeMaster => Command::ChangeMaster,
            Command::ToggleReservedSpace => Command::ToggleReservedSpace,
            Command::ToggleOol => Command::ToggleOol,
            Command::Fullscreen => Command::Fullscreen,
            Command::NextScreen => Command::NextScreen,
            Command::PrevScreen => Command::PrevScreen,
            Command::SendWindowToNextScreen => Command::SendWindowToNextScreen,
            Command::SendWindowToPrevScreen => Command::SendWindowToPrevScreen,
            Command::Spawn(p) => Command::Spawn(p.clone()),
            Command::Quit => Command::Quit,
        }
    }
}

/// The modifier mask matching a key or button state: its shift, control,
/// lock, mod1, mod2 and mod4 bits.
pub fn match_butmask_with_modmask(modkey: u32) -> (r: u32)
    ensures
        r == modkey & BINDABLE,
{
    modkey & BINDABLE
}

/// What `str::to_uppercase` makes of a string.
pub uninterp spec fn upper_of(s: Seq<char>) -> Seq<char>;

/// Relies on `str::to_uppercase`: the upper-case form, a function of the
/// characters alone.
#[verifier::external_body]
fn uppercase(s: &str) -> (r: String)
    ensures
        r@ == upper_of(s@),
{
    s.to_uppercase()
}

/// The modifier an upper-case modifier name stands for.
pub open spec fn modifier_of(name: Seq<char>) -> Option<u32> {
    if name == "META"@ || name == "ALT"@ {
        Some(MOD1)
    } else if name == "SUPER"@ || name == "WIN"@ || name == "HYPER"@ {
        Some(MOD4)
    } else if name == "LOCK"@ {
        Some(LOCK)
    } else if name == "CTRL"@ || name == "CONTROL"@ {
        Some(CONTROL)
    } else if name == "SHIFT"@ {
        Some(SHIFT)
    } else {
        None
    }
}

/// The modifier an upper-case modifier name stands for; `None` for a name
/// that is no modifier.
pub fn modifier_for_name(name: &String) -> (r: Option<u32>)
    ensures
        r == modifier_of(name@),
{
    if *name == "META".to_owned() || *name == "ALT".to_owned() {
        Some(MOD1)
    } else if *name == "SUPER".to_owned() || *name == "WIN".to_owned() || *name == "HYPER".to_owned() {
        Some(MOD4)
    } else if *name == "LOCK".to_owned() {
        Some(LOCK)
    } else if *name == "CTRL".to_owned() || *name == "CONTROL".to_owned() {
        Some(CONTROL)
    } else if *name == "SHIFT".to_owned() {
        Some(SHIFT)
    } else {
        None
    }
}

/// The modifier a name stands for, in any case; `None` for a name that is no
/// modifier.
pub fn match_mod(modkey: &str) -> (r: Option<u32>)
    ensures
        r == modifier_of(upper_of(modkey@)),
{
    let up = uppercase(modkey);
    modifier_for_name(&up)
}

/// The mask of the first `k` modifier names, or `None` if one is unknown.
pub open spec fn mods_mask(mods: Seq<&str>, k: int) -> Option<u32>
    decreases k,
{
    if k <= 0 {
        Some(0)
    } else {
        match (mods_mask(mods, k - 1), modifier_of(upper_of(mods[k - 1]@))) {
            (Some(a), Some(b)) => Some(a | b),
            _ => None,
        }
    }
}

/// The modifier mask of a list of modifier names; `None` when the list is
/// empty or holds an unknown name.
pub fn match_mods(mods: &Vec<&str>) -> (r: Option<u32>)
    ensures
        mods@.len() == 0 ==> r is None,
        mods@.len() > 0 ==> r == mods_mask(mods@, mods@.len() as int),
{
    if mods.len() == 0 {
        return None;
    }
    let mut mask: u32 = 0;
    let mut i: usize = 0;
    while i < mods.len()
        invariant
            0 <= i <= mods@.len(),
            mods_mask(mods@, i as int) == Some(mask),
        decreases mods@.len() - i,
    {
        match match_mod(mods[i]) {
            Some(b) => {
                mask = mask | b;
            },
            None => {
                proof {
                    lemma_mods_mask_none(mods@, (i + 1) as int, mods@.len() as int);
                }
                return None;
            },
        }
        i = i + 1;
    }
    Some(mask)
}

proof fn lemma_mods_mask_none(mods: Seq<&str>, k: int, n: int)
    requires
        1 <= k <= n,
        mods_mask(mods, k) is None,
    ensures
        mods_mask(mods, n) is None,
    decreases n - k,
{
    if k < n {
        lemma_mods_mask_none(mods, k + 1, n);
    }
}

/// One keybind: a modifier mask and a keycode, and the command they run.
#[derive(Debug)]
pub struct Binding {
    pub modmask: u32,
    pub keycode: u8,
    pub command: Command,
}

/// The command bound to `(modmask, keycode)` among `bs`: the latest binding
/// of that combination wins.
pub open spec fn lookup(bs: Seq<Binding>, modmask: u32, keycode: u8) -> Option<Command>
    decreases bs.len(),
{
    if bs.len() == 0 {
        None
    } else if bs.last().modmask == modmask && bs.last().keycode == keycode {
        Some(bs.last().command)
    } else {
        lookup(bs.drop_last(), modmask, keycode)
    }
}

/// The bindings a list of `(modifier names, keycode, command)` makes, those
/// with a bad modifier list left out.
pub open spec fn bindings_of(keys: Seq<(Vec<&str>, u8, Command)>) -> Seq<Binding>
    decreases keys.len(),
{
    if keys.len() == 0 {
        Seq::empty()
    } else {
        let rest = bindings_of(keys.drop_last());
        let k = keys.last();
        let m = k.0@;
        if m.len() > 0 && mods_mask(m, m.len() as int) is Some {
            rest.push(Binding { modmask: mods_mask(m, m.len() as int)->0, keycode: k.1, command: k.2 })
        } else {
            rest
        }
    }
}

/// The keybind table.
#[derive(Debug)]
pub struct KeybindSet {
    pub bindings: Vec<Binding>,
}

impl KeybindSet {
    /// An empty table.
    pub fn new() -> (r: KeybindSet)
        ensures
            r.bindings@.len() == 0,
    {
        KeybindSet { bindings: Vec::new() }
    }

    /// Binds `command` to `(modmask, keycode)`, replacing what was bound there.
    pub fn bind(&mut self, modmask: u32, keycode: u8, command: Command)
        ensures
            final(self).bindings@ == old(self).bindings@.push(Binding { modmask, keycode, command }),
            lookup(final(self).bindings@, modmask, keycode) == Some(command),
    {
        self.bindings.push(Binding { modmask, keycode, command });
        assert(self.bindings@.drop_last() =~= old(self).bindings@);
    }

    /// Binds every `(modifier names, keycode, command)` of `keys` in order;
    /// one whose modifier list is empty or holds an unknown name is left out.
    /// Returns whether all were bound.
    pub fn bindall(&mut self, keys: Vec<(Vec<&str>, u8, Command)>) -> (r: bool)
        ensures
            final(self).bindings@ == old(self).bindings@ + bindings_of(keys@),
            r == (forall|i: int|
                0 <= i < keys@.len() ==> #[trigger] keys@[i].0@.len() > 0 && mods_mask(
                    keys@[i].0@,
                    keys@[i].0@.len() as int,
                ) is Some),
    {
        let ghost orig = keys@;
        let mut keys = keys;
        let mut all = true;
        let ghost mut i: int = 0;
        while keys.len() > 0
            invariant
                0 <= i <= orig.len(),
                keys@ == orig.subrange(i, orig.len() as int),
                self.bindings@ == old(self).bindings@ + bindings_of(orig.subrange(0, i)),
                all == (forall|j: int|
                    0 <= j < i ==> #[trigger] orig[j].0@.len() > 0 && mods_mask(
                        orig[j].0@,
                        orig[j].0@.len() as int,
                    ) is Some),
            decreases keys@.len(),
        {
            let (mods, code, command) = keys.remove(0);
            let ghost sub = orig.subrange(0, i + 1);
            assert(sub.drop_last() =~= orig.subrange(0, i));
            assert(sub.last() == orig[i]);
            match match_mods(&mods) {
                Some(mask) => {
                    self.bindings.push(Binding { modmask: mask, keycode: code, command });
                },
                None => {
                    all = false;
                },
            }
            proof {
                i = i + 1;
                assert(keys@ =~= orig.subrange(i, orig.len() as int));
            }
        }
        assert(orig.subrange(0, orig.len() as int) =~= orig);
        all
    }

    /// The bindings, in the order they were made.
    pub fn iter(&self) -> (r: &[Binding])
        ensures
            r@ == self.bindings@,
    {
        self.bindings.as_slice()
    }

    /// The command bound to a key press of `code` with key state `modmask`.
    pub fn get_callback(&self, code: u8, modmask: u32) -> (r: Option<&Command>)
        ensures
            r is None <==> lookup(self.bindings@, match_butmask_with_modmask_spec(modmask), code) is None,
            r matches Some(c) ==> lookup(self.bindings@, match_butmask_with_modmask_spec(modmask), code)
                == Some(*c),
    {
        let m = match_butmask_with_modmask(modmask);
        let mut i = self.bindings.len();
        assert(self.bindings@.subrange(0, i as int) =~= self.bindings@);
        while i > 0
            invariant
                i <= self.bindings@.len(),
                lookup(self.bindings@, m, code) == lookup(self.bindings@.subrange(0, i as int), m, code),
                m == match_butmask_with_modmask_spec(modmask),
            decreases i,
        {
            let b = &self.bindings[i - 1];
            let ghost sub = self.bindings@.subrange(0, i as int);
            assert(sub.drop_last() =~= self.bindings@.subrange(0, i - 1));
            if b.modmask == m && b.keycode == code {
                return Some(&b.command);
            }
            i = i - 1;
        }
        None
    }
}

/// The modifier mask matching a key or button state.
pub open spec fn match_butmask_with_modmask_spec(modkey: u32) -> u32 {
    modkey & BINDABLE
}

} // verus!
