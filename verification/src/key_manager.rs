//! Key bindings: the default table, the action each binding identifier
//! stands for, and the translation of a key chord into the hotkey notation
//! the host registers with the window system.

use vstd::prelude::*;
use vstd::string::StrSliceExecFns;
use vstd::string::StringSliceAdditionalSpecFns;
use crate::text::{append_bytes, bytes_eq, lower, lower_bytes, opt_bytes};

verus! {

/// One key binding: a chord of key names (modifiers first) tied to an
/// action.
pub struct KeyBinding {
    pub id: Vec<u8>,
    pub keys: Vec<Vec<u8>>,
    pub action: Vec<u8>,
    pub description: Vec<u8>,
    pub context: Vec<u8>,
}

/// The mathematical value of a [`KeyBinding`].
#[verifier::ext_equal]
pub ghost struct KeyBindingView {
    pub id: Seq<u8>,
    pub keys: Seq<Seq<u8>>,
    pub action: Seq<u8>,
    pub description: Seq<u8>,
    pub context: Seq<u8>,
}

impl View for KeyBinding {
    type V = KeyBindingView;

    open spec fn view(&self) -> KeyBindingView {
        KeyBindingView {
            id: self.id@,
            keys: self.keys@.map_values(|k: Vec<u8>| k@),
            action: self.action@,
            description: self.description@,
            context: self.context@,
        }
    }
}

/// One observed key event, as the host reports it to the interface.
pub struct KeyEvent {
    pub key: Vec<u8>,
    pub modifiers: Vec<Vec<u8>>,
    pub action: Vec<u8>,
    pub timestamp: u64,
}

/// The mathematical value of a [`KeyEvent`].
#[verifier::ext_equal]
pub ghost struct KeyEventView {
    pub key: Seq<u8>,
    pub modifiers: Seq<Seq<u8>>,
    pub action: Seq<u8>,
    pub timestamp: int,
}

impl View for KeyEvent {
    type V = KeyEventView;

    open spec fn view(&self) -> KeyEventView {
        KeyEventView {
            key: self.key@,
            modifiers: self.modifiers@.map_values(|k: Vec<u8>| k@),
            action: self.action@,
            timestamp: self.timestamp as int,
        }
    }
}

/// One default binding, in spec form.
pub open spec fn binding(
    id: Seq<u8>,
    keys: Seq<Seq<u8>>,
    action: Seq<u8>,
    description: Seq<u8>,
    context: Seq<u8>,
) -> KeyBindingView {
    KeyBindingView { id, keys, action, description, context }
}

/// The default binding table, in registration order.
pub open spec fn default_bindings() -> Seq<KeyBindingView> {
    seq![
        binding(
            "help".spec_bytes(),
            seq!["f1".spec_bytes()],
            "toggle_help".spec_bytes(),
            "Toggle help".spec_bytes(),
            "global".spec_bytes(),
        ),
        binding(
            "escape".spec_bytes(),
            seq!["escape".spec_bytes()],
            "escape".spec_bytes(),
            "Close dialogs/menus".spec_bytes(),
            "global".spec_bytes(),
        ),
        binding(
            "save_file".spec_bytes(),
            seq!["cmdorctrl".spec_bytes(), "s".spec_bytes()],
            "save_file".spec_bytes(),
            "Save file".spec_bytes(),
            "editor".spec_bytes(),
        ),
        binding(
            "save_file_ctrl".spec_bytes(),
            seq!["cmdorctrl".spec_bytes(), "s".spec_bytes()],
            "save_file".spec_bytes(),
            "Save file (Ctrl)".spec_bytes(),
            "editor".spec_bytes(),
        ),
        binding(
            "new_file".spec_bytes(),
            seq!["cmdorctrl".spec_bytes(), "n".spec_bytes()],
            "new_file".spec_bytes(),
            "New file".spec_bytes(),
            "global".spec_bytes(),
        ),
        binding(
            "new_file_ctrl".spec_bytes(),
            seq!["cmdorctrl".spec_bytes(), "n".spec_bytes()],
            "new_file".spec_bytes(),
            "New file (Ctrl)".spec_bytes(),
            "global".spec_bytes(),
        ),
        binding(
            "open_file".spec_bytes(),
            seq!["cmdorctrl".spec_bytes(), "o".spec_bytes()],
            "open_file".spec_bytes(),
            "Open file".spec_bytes(),
            "global".spec_bytes(),
        ),
        binding(
            "open_file_ctrl".spec_bytes(),
            seq!["cmdorctrl".spec_bytes(), "o".spec_bytes()],
            "open_file".spec_bytes(),
            "Open file (Ctrl)".spec_bytes(),
            "global".spec_bytes(),
        ),
    ]
}

fn mk_binding(id: &str, keys: Vec<Vec<u8>>, action: &str, description: &str, context: &str) -> (r:
    KeyBinding)
    ensures
        r@ == binding(
            id.spec_bytes(),
            keys@.map_values(|k: Vec<u8>| k@),
            action.spec_bytes(),
            description.spec_bytes(),
            context.spec_bytes(),
        ),
{
    let r = KeyBinding {
        id: id.as_bytes_vec(),
        keys,
        action: action.as_bytes_vec(),
        description: description.as_bytes_vec(),
        context: context.as_bytes_vec(),
    };
    proof {
        assert(r@ =~= binding(
            id.spec_bytes(),
            keys@.map_values(|k: Vec<u8>| k@),
            action.spec_bytes(),
            description.spec_bytes(),
            context.spec_bytes(),
        ));
    }
    r
}

fn chord1(a: &str) -> (r: Vec<Vec<u8>>)
    ensures
        r@.map_values(|k: Vec<u8>| k@) == seq![a.spec_bytes()],
{
    let mut r: Vec<Vec<u8>> = Vec::new();
    r.push(a.as_bytes_vec());
    proof {
        assert(r@.map_values(|k: Vec<u8>| k@) =~= seq![a.spec_bytes()]);
    }
    r
}

fn chord2(a: &str, b: &str) -> (r: Vec<Vec<u8>>)
    ensures
        r@.map_values(|k: Vec<u8>| k@) == seq![a.spec_bytes(), b.spec_bytes()],
{
    let mut r: Vec<Vec<u8>> = Vec::new();
    r.push(a.as_bytes_vec());
    r.push(b.as_bytes_vec());
    proof {
        assert(r@.map_values(|k: Vec<u8>| k@) =~= seq![a.spec_bytes(), b.spec_bytes()]);
    }
    r
}

/// The default bindings, for the host to register at start-up.
#[verifier::rlimit(40)]
pub fn default_key_bindings() -> (r: Vec<KeyBinding>)
    ensures
        r@.map_values(|b: KeyBinding| b@) == default_bindings(),
{
    let mut r: Vec<KeyBinding> = Vec::new();
    r.push(mk_binding("help", chord1("f1"), "toggle_help", "Toggle help", "global"));
    r.push(mk_binding("escape", chord1("escape"), "escape", "Close dialogs/menus", "global"));
    r.push(mk_binding("save_file", chord2("cmdorctrl", "s"), "save_file", "Save file", "editor"));
    r.push(
        mk_binding(
            "save_file_ctrl",
            chord2("cmdorctrl", "s"),
            "save_file",
            "Save file (Ctrl)",
            "editor",
        ),
    );
    r.push(mk_binding("new_file", chord2("cmdorctrl", "n"), "new_file", "New file", "global"));
    r.push(
        mk_binding(
            "new_file_ctrl",
            chord2("cmdorctrl", "n"),
            "new_file",
            "New file (Ctrl)",
            "global",
        ),
    );
    r.push(mk_binding("open_file", chord2("cmdorctrl", "o"), "open_file", "Open file", "global"));
    r.push(
        mk_binding(
            "open_file_ctrl",
            chord2("cmdorctrl", "o"),
            "open_file",
            "Open file (Ctrl)",
            "global",
        ),
    );
    proof {
        assert(r@.map_values(|b: KeyBinding| b@) =~= default_bindings());
    }
    r
}

/// The action a binding identifier stands for, if it is a known one.
pub open spec fn action_of(id: Seq<u8>) -> Option<Seq<u8>> {
    if id == "command_bar".spec_bytes() || id == "command_bar_ctrl".spec_bytes() {
        Some("toggle_command_bar".spec_bytes())
    } else if id == "help".spec_bytes() {
        Some("toggle_help".spec_bytes())
    } else if id == "escape".spec_bytes() {
        Some("escape".spec_bytes())
    } else if id == "save_file".spec_bytes() || id == "save_file_ctrl".spec_bytes() {
        Some("save_file".spec_bytes())
    } else if id == "new_file".spec_bytes() || id == "new_file_ctrl".spec_bytes() {
        Some("new_file".spec_bytes())
    } else if id == "open_file".spec_bytes() || id == "open_file_ctrl".spec_bytes() {
        Some("open_file".spec_bytes())
    } else {
        None
    }
}

/// The action a binding identifier stands for, if it is a known one.
pub fn action_for_id(id: &Vec<u8>) -> (r: Option<Vec<u8>>)
    ensures
        opt_bytes(r) == action_of(id@),
{
    if bytes_eq(id, &"command_bar".as_bytes_vec()) || bytes_eq(
        id,
        &"command_bar_ctrl".as_bytes_vec(),
    ) {
        Some("toggle_command_bar".as_bytes_vec())
    } else if bytes_eq(id, &"help".as_bytes_vec()) {
        Some("toggle_help".as_bytes_vec())
    } else if bytes_eq(id, &"escape".as_bytes_vec()) {
        Some("escape".as_bytes_vec())
    } else if bytes_eq(id, &"save_file".as_bytes_vec()) || bytes_eq(
        id,
        &"save_file_ctrl".as_bytes_vec(),
    ) {
        Some("save_file".as_bytes_vec())
    } else if bytes_eq(id, &"new_file".as_bytes_vec()) || bytes_eq(
        id,
        &"new_file_ctrl".as_bytes_vec(),
    ) {
        Some("new_file".as_bytes_vec())
    } else if bytes_eq(id, &"open_file".as_bytes_vec()) || bytes_eq(
        id,
        &"open_file_ctrl".as_bytes_vec(),
    ) {
        Some("open_file".as_bytes_vec())
    } else {
        None
    }
}

/// The primary-modifier key name: the command key on a Mac, control
/// elsewhere.
pub open spec fn platform_cmd_of(mac: bool) -> Seq<u8> {
    if mac {
        "Command".spec_bytes()
    } else {
        "Control".spec_bytes()
    }
}

/// The hotkey notation a modifier name contributes, if it names a modifier
/// at all (compared in lower case).
pub open spec fn modifier_of(m: Seq<u8>, mac: bool) -> Option<Seq<u8>> {
    let l = lower(m);
    if l == "cmd".spec_bytes() || l == "command".spec_bytes() || l == "cmdorctrl".spec_bytes() {
        Some(platform_cmd_of(mac))
    } else if l == "ctrl".spec_bytes() || l == "control".spec_bytes() {
        Some("Control".spec_bytes())
    } else if l == "alt".spec_bytes() || l == "option".spec_bytes() {
        Some("Alt".spec_bytes())
    } else if l == "shift".spec_bytes() {
        Some("Shift".spec_bytes())
    } else {
        None
    }
}

/// ASCII upper case of a byte string.
pub open spec fn upper(c: Seq<u8>) -> Seq<u8> {
    Seq::new(c.len(), |i: int| upper_byte(c[i]))
}

/// ASCII upper case of one byte.
pub open spec fn upper_byte(b: u8) -> u8 {
    if 97 <= b <= 122 {
        (b - 32) as u8
    } else {
        b
    }
}

/// Byte-wise ASCII upper case.
pub fn upper_bytes(c: &Vec<u8>) -> (r: Vec<u8>)
    ensures
        r@ == upper(c@),
{
    let mut r: Vec<u8> = Vec::new();
    let mut i: usize = 0;
    while i < c.len()
        invariant
            i <= c@.len(),
            r@ == upper(c@).subrange(0, i as int),
        decreases c.len() - i,
    {
        let b = c[i];
        if 97 <= b && b <= 122 {
            r.push(b - 32);
        } else {
            r.push(b);
        }
        assert(r@ =~= upper(c@).subrange(0, i + 1));
        i += 1;
    }
    assert(r@ =~= upper(c@));
    r
}

/// The recognised modifiers among the first `n` chord entries, each already
/// followed by a joining `+`.
pub open spec fn modifier_run(keys: Seq<Seq<u8>>, n: int, mac: bool) -> Seq<u8>
    decreases n,
{
    if n <= 0 {
        Seq::<u8>::empty()
    } else {
        modifier_run(keys, n - 1, mac) + if 0 <= n - 1 < keys.len() {
            match modifier_of(keys[n - 1], mac) {
                Some(m) => m + seq![43u8],
                None => Seq::<u8>::empty(),
            }
        } else {
            Seq::<u8>::empty()
        }
    }
}

/// The hotkey notation of a chord: nothing for an empty chord or one ending
/// in the escape key; otherwise the recognised modifiers joined with `+`,
/// then the final key upper-cased.
pub open spec fn hotkey_of(keys: Seq<Seq<u8>>, mac: bool) -> Option<Seq<u8>> {
    if keys.len() == 0 {
        None
    } else if lower(keys.last()) == "escape".spec_bytes() {
        None
    } else {
        Some(modifier_run(keys, keys.len() - 1, mac) + upper(keys.last()))
    }
}

/// Translates a chord into the hotkey notation the host registers; `mac`
/// says which primary modifier this platform uses.
pub fn binding_to_hotkey(keys: &Vec<Vec<u8>>, mac: bool) -> (r: Option<Vec<u8>>)
    ensures
        opt_bytes(r) == hotkey_of(keys@.map_values(|k: Vec<u8>| k@), mac),
{
    let ghost kv = keys@.map_values(|k: Vec<u8>| k@);
    if keys.len() == 0 {
        return None;
    }
    let last = &keys[keys.len() - 1];
    let last_lower = lower_bytes(last);
    if bytes_eq(&last_lower, &"escape".as_bytes_vec()) {
        return None;
    }
    let mut out: Vec<u8> = Vec::new();
    let mut i: usize = 0;
    proof {
        assert(out@ =~= modifier_run(kv, 0, mac));
    }
    while i < keys.len() - 1
        invariant
            keys@.len() >= 1,
            i <= keys@.len() - 1,
            kv == keys@.map_values(|k: Vec<u8>| k@),
            out@ == modifier_run(kv, i as int, mac),
        decreases keys.len() - i,
    {
        let l = lower_bytes(&keys[i]);
        let m: Option<Vec<u8>> = if bytes_eq(&l, &"cmd".as_bytes_vec()) || bytes_eq(
            &l,
            &"command".as_bytes_vec(),
        ) || bytes_eq(&l, &"cmdorctrl".as_bytes_vec()) {
            if mac {
                Some("Command".as_bytes_vec())
            } else {
                Some("Control".as_bytes_vec())
            }
        } else if bytes_eq(&l, &"ctrl".as_bytes_vec()) || bytes_eq(&l, &"control".as_bytes_vec()) {
            Some("Control".as_bytes_vec())
        } else if bytes_eq(&l, &"alt".as_bytes_vec()) || bytes_eq(&l, &"option".as_bytes_vec()) {
            Some("Alt".as_bytes_vec())
        } else if bytes_eq(&l, &"shift".as_bytes_vec()) {
            Some("Shift".as_bytes_vec())
        } else {
            None
        };
        proof {
            assert(opt_bytes(m) == modifier_of(kv[i as int], mac));
        }
        match m {
            Some(mm) => {
                append_bytes(&mut out, &mm);
                out.push(43);
            },
            None => (),
        }
        proof {
            assert(out@ =~= modifier_run(kv, i + 1, mac));
        }
        i += 1;
    }
    let up = upper_bytes(last);
    append_bytes(&mut out, &up);
    proof {
        assert(kv.last() == last@);
        assert(out@ =~= modifier_run(kv, kv.len() - 1, mac) + upper(kv.last()));
    }
    Some(out)
}

} // verus!
