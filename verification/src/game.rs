//! The dialogue game: a list of dialogue lines read from the dialogue file,
//! the line being shown, labels that lines jump to, branch choices, and the
//! decisions each frame makes about the screen.
use vstd::prelude::*;
use crate::config::MainConfig;
use crate::strmap::StrMap;
use crate::text::{
    concat, contains_seq, lemma_replace_absent, lemma_replace_whole, first_chars, has_prefix, owned, parse_usize, parsed_usize, replace, replace_all,
    replace_char, replace_char_all, starts_with, str_eq, take_chars, trim_prefix_all,
    trim_start_matches,
};
use crate::typewriter::{byte_len, utf8_len};

verus! {

/// A branch option of a dialogue line: its text and the line it leads to,
/// written in decimal.
#[derive(Debug, Clone)]
pub struct Choice {
    pub text: String,
    pub goto: String,
}

/// One line of the dialogue file.
#[derive(Debug, Clone)]
pub struct Dialogue {
    pub character: String,
    pub text: String,
    pub portrait: String,
    pub background: Option<String>,
    pub swf: Option<String>,
    pub label: Option<String>,
    pub jump: Option<String>,
    pub choices: Option<Vec<Choice>>,
}

/// Where the dialogue stands.
#[derive(Debug)]
pub struct GameState {
    pub current_line: usize,
    pub dialogues: Vec<Dialogue>,
    /// Whether the player may step back a line.
    pub can_go_back: bool,
    /// A label to jump to on the next frame.
    pub jump_label: Option<String>,
    /// Whether the line shows branch choices, which stops plain advancing.
    pub in_branch_selection: bool,
}

/// Labels to the index of the line that carries them.
#[derive(Debug)]
pub struct LabelMap(pub StrMap<usize>);

/// The labels of `ds`, each bound to the last index of a line that carries
/// it.
pub open spec fn label_map_of(ds: Seq<Dialogue>) -> Map<Seq<char>, usize>
    decreases ds.len(),
{
    if ds.len() == 0 {
        Map::empty()
    } else {
        let m = label_map_of(ds.drop_last());
        match ds.last().label {
            Some(l) => m.insert(l@, (ds.len() - 1) as usize),
            None => m,
        }
    }
}

/// Line `i` of `ds` carries the label `l`.
pub open spec fn carries_label(ds: Seq<Dialogue>, i: int, l: Seq<char>) -> bool {
    &&& 0 <= i < ds.len()
    &&& ds[i].label matches Some(x)
    &&& x@ == l
}

/// A label is in the map exactly when some line carries it, and it leads to
/// the last line that carries it.
pub proof fn law_label_map_targets(ds: Seq<Dialogue>, l: Seq<char>)
    requires
        ds.len() <= usize::MAX,
    ensures
        label_map_of(ds).contains_key(l) <==> exists|i: int| carries_label(ds, i, l),
        label_map_of(ds).contains_key(l) ==> {
            let t = label_map_of(ds)[l] as int;
            &&& carries_label(ds, t, l)
            &&& forall|j: int| t < j < ds.len() ==> !carries_label(ds, j, l)
        },
    decreases ds.len(),
{
    if ds.len() > 0 {
        let init = ds.drop_last();
        law_label_map_targets(init, l);
        let n = ds.len() - 1;
        assert forall|i: int| 0 <= i < n implies carries_label(ds, i, l) == carries_label(
            init,
            i,
            l,
        ) by {
            assert(ds[i] == init[i]);
        }
        assert(ds.last() == ds[n]);
        if carries_label(ds, n, l) {
            assert(label_map_of(ds)[l] == n);
        } else {
            if exists|i: int| carries_label(ds, i, l) {
                let i = choose|i: int| carries_label(ds, i, l);
                assert(carries_label(init, i, l));
            }
            if label_map_of(ds).contains_key(l) {
                assert(label_map_of(ds)[l] == label_map_of(init)[l]);
                let t = label_map_of(init)[l] as int;
                assert(carries_label(init, t, l));
            }
        }
    }
}

/// Builds the label map of a dialogue list.
pub fn build_label_map(dialogues: &Vec<Dialogue>) -> (m: LabelMap)
    ensures
        m.0@ == label_map_of(dialogues@),
{
    let mut map: StrMap<usize> = StrMap::new();
    let mut i: usize = 0;
    while i < dialogues.len()
        invariant
            i <= dialogues@.len(),
            map@ == label_map_of(dialogues@.take(i as int)),
        decreases dialogues@.len() - i,
    {
        assert(dialogues@.take(i + 1).drop_last() =~= dialogues@.take(i as int));
        match &dialogues[i].label {
            Some(label) => {
                map.insert(label.clone(), i);
            },
            None => {},
        }
        i = i + 1;
    }
    assert(dialogues@.take(dialogues@.len() as int) =~= dialogues@);
    LabelMap(map)
}

/// The state a new game starts in, with the label map of its lines.
pub fn setup_game_state(dialogues: Vec<Dialogue>) -> (r: (GameState, LabelMap))
    ensures
        r.0.current_line == 0,
        r.0.dialogues@ == dialogues@,
        !r.0.can_go_back,
        r.0.jump_label is None,
        !r.0.in_branch_selection,
        r.1.0@ == label_map_of(dialogues@),
{
    let labels = build_label_map(&dialogues);
    (
        GameState {
            current_line: 0,
            dialogues,
            can_go_back: false,
            jump_label: None,
            in_branch_selection: false,
        },
        labels,
    )
}

/// The input of one frame.
#[derive(Debug)]
pub struct InputFrame {
    /// Escape was pressed: it returns to the main menu.
    pub escape: bool,
    /// The lines that the digit keys pressed this frame select, in the
    /// order the keys are reported.
    pub digit_jumps: Vec<usize>,
    /// Backspace was pressed. The left arrow is not part of the frame's
    /// input: `keyboard_system` steps back on it.
    pub back: bool,
    /// Space, enter, the left mouse button or the click area was pressed.
    pub advance: bool,
}

/// What a frame's input asks of the application.
#[derive(Debug, Clone, Copy)]
pub struct InputEffects {
    /// Return to the main menu screen; the program keeps running.
    pub to_menu: bool,
    /// How many times to play the click sound.
    pub sounds: usize,
}

/// The line after the digit keys: the last one pressed wins.
pub open spec fn line_after_digits(line: usize, digits: Seq<usize>) -> usize {
    if digits.len() == 0 {
        line
    } else {
        digits.last()
    }
}

/// The line the dialogue moves to on an advance from `line`, or the label
/// it asks to jump to.
pub open spec fn advances(s: GameState, line: usize) -> bool {
    !s.in_branch_selection && line < s.dialogues@.len()
}

/// The line after the digit keys of `input` and, where it is allowed, one
/// step back.
pub open spec fn line_before_advance(s: GameState, input: InputFrame) -> usize {
    let l1 = line_after_digits(s.current_line, input.digit_jumps@);
    if input.back && s.can_go_back && l1 > 0 {
        (l1 - 1) as usize
    } else {
        l1
    }
}

/// The frame's input steps one line back.
pub open spec fn steps_back(s: GameState, input: InputFrame) -> bool {
    input.back && s.can_go_back && line_after_digits(s.current_line, input.digit_jumps@) > 0
}

/// The frame's input advances from the line it has reached.
pub open spec fn input_advances(s: GameState, input: InputFrame) -> bool {
    input.advance && advances(s, line_before_advance(s, input))
}

/// The line a frame of input that does not quit ends on: the next line
/// after an advance from a line without a jump, otherwise the line reached
/// by the digit keys and going back.
pub open spec fn input_line(s: GameState, input: InputFrame) -> int {
    let l2 = line_before_advance(s, input);
    if input_advances(s, input) && s.dialogues@[l2 as int].jump is None {
        l2 + 1
    } else {
        l2 as int
    }
}

/// The dialogue state after a frame of input that does not quit: the digit
/// keys select a line, going back steps one line back while that is allowed
/// (and at the first line forbids going back further), and advancing asks
/// for the line's jump or moves to the next line, and allows going back.
pub open spec fn input_state(s: GameState, input: InputFrame) -> GameState {
    let l2 = line_before_advance(s, input);
    let cgb = if steps_back(s, input) && l2 == 0 {
        false
    } else {
        s.can_go_back
    };
    let adv = input_advances(s, input);
    let jump = adv && s.dialogues@[l2 as int].jump is Some;
    GameState {
        current_line: input_line(s, input) as usize,
        dialogues: s.dialogues,
        can_go_back: adv || cgb,
        jump_label: if jump {
            s.dialogues@[l2 as int].jump
        } else {
            s.jump_label
        },
        in_branch_selection: s.in_branch_selection,
    }
}

/// The click sounds of a frame of input that does not quit: one for a step
/// back and one for an advance.
pub open spec fn input_sounds(s: GameState, input: InputFrame) -> nat {
    (if steps_back(s, input) {
        1nat
    } else {
        0nat
    }) + (if input_advances(s, input) {
        1nat
    } else {
        0nat
    })
}

/// Applies one frame of input: escape returns to the main menu at once and
/// changes nothing; otherwise the state moves as `input_state` says and a click sounds as
/// `input_sounds` says.
pub fn handle_input(state: &mut GameState, input: &InputFrame) -> (r: InputEffects)
    ensures
        input.escape ==> r.to_menu && r.sounds == 0 && *final(state) == *old(state),
        !input.escape ==> {
            &&& !r.to_menu
            &&& r.sounds == input_sounds(*old(state), *input)
            &&& *final(state) == input_state(*old(state), *input)
            &&& final(state).current_line == input_line(*old(state), *input)
        },
{
    if input.escape {
        return InputEffects { to_menu: true, sounds: 0 };
    }
    let mut k: usize = 0;
    while k < input.digit_jumps.len()
        invariant
            k <= input.digit_jumps@.len(),
            state.dialogues == old(state).dialogues,
            state.in_branch_selection == old(state).in_branch_selection,
            state.can_go_back == old(state).can_go_back,
            state.jump_label == old(state).jump_label,
            state.current_line == line_after_digits(
                old(state).current_line,
                input.digit_jumps@.take(k as int),
            ),
        decreases input.digit_jumps@.len() - k,
    {
        state.current_line = input.digit_jumps[k];
        k = k + 1;
    }
    assert(input.digit_jumps@.take(input.digit_jumps@.len() as int) =~= input.digit_jumps@);
    let mut sounds: usize = 0;
    if input.back && state.can_go_back && state.current_line > 0 {
        state.current_line = state.current_line - 1;
        sounds = sounds + 1;
        if state.current_line == 0 {
            state.can_go_back = false;
        }
    }
    if state.in_branch_selection {
        return InputEffects { to_menu: false, sounds };
    }
    if input.advance && state.current_line < state.dialogues.len() {
        let line = state.current_line;
        match &state.dialogues[line].jump {
            Some(label) => {
                let l = label.clone();
                state.jump_label = Some(l);
            },
            None => {
                state.current_line = line + 1;
            },
        }
        state.can_go_back = true;
        sounds = sounds + 1;
    }
    InputEffects { to_menu: false, sounds }
}

/// What applying a pending jump did.
#[derive(Debug)]
pub enum JumpOutcome {
    /// No jump was pending.
    NoJump,
    Jumped { from: usize, to: usize },
    /// The label is not in the label map; the line stays.
    Missing { label: String },
}

/// The state after applying the pending jump with the label map `labels`:
/// a known label moves to its line and allows going back; the pending jump
/// is cleared either way.
pub open spec fn jumped_state(labels: Map<Seq<char>, usize>, s: GameState) -> GameState {
    match s.jump_label {
        Some(l) => if labels.contains_key(l@) {
            GameState {
                current_line: labels[l@],
                dialogues: s.dialogues,
                can_go_back: true,
                jump_label: None,
                in_branch_selection: s.in_branch_selection,
            }
        } else {
            GameState {
                current_line: s.current_line,
                dialogues: s.dialogues,
                can_go_back: s.can_go_back,
                jump_label: None,
                in_branch_selection: s.in_branch_selection,
            }
        },
        None => s,
    }
}

/// Applies the pending jump, if any, and reports what it did.
pub fn apply_jump(labels: &LabelMap, state: &mut GameState) -> (r: JumpOutcome)
    ensures
        *final(state) == jumped_state(labels.0@, *old(state)),
        match old(state).jump_label {
            None => r is NoJump,
            Some(l) => if labels.0@.contains_key(l@) {
                r == JumpOutcome::Jumped { from: old(state).current_line, to: labels.0@[l@] }
            } else {
                r == JumpOutcome::Missing { label: l }
            },
        },
{
    let pending = state.jump_label.take();
    match pending {
        Some(label) => match labels.0.get(label.as_str()) {
            Some(target) => {
                let from = state.current_line;
                state.current_line = *target;
                state.can_go_back = true;
                JumpOutcome::Jumped { from, to: *target }
            },
            None => JumpOutcome::Missing { label },
        },
        None => JumpOutcome::NoJump,
    }
}

/// Going back is allowed and there is a line before the current one.
pub open spec fn can_step_back(s: GameState) -> bool {
    s.can_go_back && s.current_line > 0
}

/// The state after the left arrow steps one line back: back at the first
/// line going back is no longer allowed, and stepping back before line 5
/// leaves a branch selection.
pub open spec fn stepped_back(s: GameState) -> GameState {
    let line = (s.current_line - 1) as usize;
    GameState {
        current_line: line,
        dialogues: s.dialogues,
        can_go_back: line != 0,
        jump_label: s.jump_label,
        in_branch_selection: s.in_branch_selection && line >= 5,
    }
}

/// The left arrow steps one line back while that is allowed. Returns
/// whether it stepped back; a step back plays the back click once.
pub fn keyboard_system(state: &mut GameState, left_pressed: bool) -> (moved: bool)
    ensures
        moved == (left_pressed && can_step_back(*old(state))),
        moved ==> *final(state) == stepped_back(*old(state)),
        !moved ==> *final(state) == *old(state),
{
    if left_pressed {
        if state.can_go_back && state.current_line > 0 {
            state.current_line = state.current_line - 1;
            if state.current_line == 0 {
                state.can_go_back = false;
            }
            if state.in_branch_selection && state.current_line < 5 {
                state.in_branch_selection = false;
            }
            return true;
        }
    }
    false
}

/// The state after one frame of the dialogue: the frame's input, then the
/// left arrow where it was pressed.
pub open spec fn frame_state(s: GameState, input: InputFrame, left: bool) -> GameState {
    let a = input_state(s, input);
    if left && can_step_back(a) {
        stepped_back(a)
    } else {
        a
    }
}

/// A frame in which only the left arrow is pressed steps back exactly one
/// line while that is allowed, leaves a branch selection before line 5, and
/// otherwise changes nothing.
pub proof fn law_left_arrow_steps_back_once(s: GameState, input: InputFrame)
    requires
        !input.escape,
        input.digit_jumps@.len() == 0,
        !input.back,
        !input.advance,
    ensures
        input_state(s, input) == s,
        input_sounds(s, input) == 0,
        can_step_back(s) ==> {
            let f = frame_state(s, input, true);
            &&& f.current_line == s.current_line - 1
            &&& f.in_branch_selection == (s.in_branch_selection && f.current_line >= 5)
            &&& f.can_go_back == (f.current_line != 0)
            &&& f.dialogues == s.dialogues
            &&& f.jump_label == s.jump_label
        },
        !can_step_back(s) ==> frame_state(s, input, true) == s,
{
}

/// Backspace steps back whatever is on screen: in a frame that does not
/// quit or advance, while going back is allowed and the line reached by the
/// digit keys (the last one pressed, or the current line) is past the first,
/// the dialogue ends one line before it with one click, whether or not a
/// branch selection is shown; at the first line going back is then no
/// longer allowed.
pub proof fn law_backspace_always_steps_back(s: GameState, input: InputFrame)
    requires
        !input.escape,
        input.back,
        !input.advance,
        s.can_go_back,
        (if input.digit_jumps@.len() == 0 {
            s.current_line
        } else {
            input.digit_jumps@[input.digit_jumps@.len() - 1]
        }) > 0,
    ensures
        ({
            let reached = if input.digit_jumps@.len() == 0 {
                s.current_line
            } else {
                input.digit_jumps@[input.digit_jumps@.len() - 1]
            };
            let t = input_state(s, input);
            &&& t.current_line == reached - 1
            &&& t.can_go_back == (reached - 1 != 0)
            &&& t.in_branch_selection == s.in_branch_selection
            &&& t.jump_label == s.jump_label
            &&& t.dialogues == s.dialogues
            &&& input_sounds(s, input) == 1
        }),
{
}

/// Going back undoes advancing: after a frame that only advances from a
/// line without a jump, outside a branch selection, both the left arrow and
/// Backspace return to that line, with the same lines and pending jump.
pub proof fn law_back_undoes_advance(s: GameState, advance: InputFrame, back: InputFrame)
    requires
        s.dialogues@.len() <= usize::MAX,
        s.current_line < s.dialogues@.len(),
        !s.in_branch_selection,
        s.dialogues@[s.current_line as int].jump is None,
        !advance.escape,
        advance.digit_jumps@.len() == 0,
        !advance.back,
        advance.advance,
        !back.escape,
        back.digit_jumps@.len() == 0,
        back.back,
        !back.advance,
    ensures
        ({
            let a = input_state(s, advance);
            &&& a.current_line == s.current_line + 1
            &&& can_step_back(a)
            &&& stepped_back(a).current_line == s.current_line
            &&& stepped_back(a).dialogues == s.dialogues
            &&& stepped_back(a).jump_label == s.jump_label
            &&& input_state(a, back).current_line == s.current_line
            &&& input_state(a, back).dialogues == s.dialogues
            &&& input_state(a, back).jump_label == s.jump_label
            &&& input_sounds(a, back) == 1
        }),
{
}

/// Advancing on a line whose jump names a label, and then applying the jump
/// with the label map of the lines, lands on the last line that carries the
/// label, with going back allowed; where no line carries it, the dialogue
/// stays on the jumping line. No jump is pending afterwards either way.
pub proof fn law_jump_lands_on_label(s: GameState, advance: InputFrame)
    requires
        s.dialogues@.len() <= usize::MAX,
        s.current_line < s.dialogues@.len(),
        !s.in_branch_selection,
        !advance.escape,
        advance.digit_jumps@.len() == 0,
        !advance.back,
        advance.advance,
        s.dialogues@[s.current_line as int].jump is Some,
    ensures
        ({
            let l = s.dialogues@[s.current_line as int].jump->0@;
            let t = jumped_state(label_map_of(s.dialogues@), input_state(s, advance));
            &&& (exists|i: int| carries_label(s.dialogues@, i, l)) ==> {
                &&& carries_label(s.dialogues@, t.current_line as int, l)
                &&& forall|j: int|
                    t.current_line < j < s.dialogues@.len() ==> !carries_label(s.dialogues@, j, l)
                &&& t.can_go_back
            }
            &&& !(exists|i: int| carries_label(s.dialogues@, i, l)) ==> t.current_line
                == s.current_line
            &&& t.jump_label is None
            &&& t.dialogues == s.dialogues
        }),
{
    let l = s.dialogues@[s.current_line as int].jump->0@;
    law_label_map_targets(s.dialogues@, l);
}

/// The last of the targets that reads as a line number.
pub open spec fn last_goto(gotos: Seq<Seq<char>>) -> Option<usize>
    decreases gotos.len(),
{
    if gotos.len() == 0 {
        None
    } else {
        match parsed_usize(gotos.last()) {
            Some(n) => Some(n),
            None => last_goto(gotos.drop_last()),
        }
    }
}

/// The characters of each string.
pub open spec fn string_views(v: Seq<String>) -> Seq<Seq<char>> {
    v.map_values(|s: String| s@)
}

/// Handles the choice buttons pressed this frame, given by their targets in
/// the order they are reported: each target that reads as a line number
/// moves there, allows going back and ends the branch selection.
pub fn handle_choice_buttons(state: &mut GameState, pressed: &Vec<String>) -> (moved: bool)
    ensures
        moved == last_goto(string_views(pressed@)) is Some,
        final(state).dialogues@ == old(state).dialogues@,
        final(state).jump_label == old(state).jump_label,
        match last_goto(string_views(pressed@)) {
            Some(n) => {
                &&& final(state).current_line == n
                &&& final(state).can_go_back
                &&& !final(state).in_branch_selection
            },
            None => {
                &&& final(state).current_line == old(state).current_line
                &&& final(state).can_go_back == old(state).can_go_back
                &&& final(state).in_branch_selection == old(state).in_branch_selection
            },
        },
{
    let mut moved = false;
    let mut i: usize = 0;
    while i < pressed.len()
        invariant
            i <= pressed@.len(),
            state.dialogues@ == old(state).dialogues@,
            state.jump_label == old(state).jump_label,
            moved == last_goto(string_views(pressed@.take(i as int))) is Some,
            match last_goto(string_views(pressed@.take(i as int))) {
                Some(n) => {
                    &&& state.current_line == n
                    &&& state.can_go_back
                    &&& !state.in_branch_selection
                },
                None => {
                    &&& state.current_line == old(state).current_line
                    &&& state.can_go_back == old(state).can_go_back
                    &&& state.in_branch_selection == old(state).in_branch_selection
                },
            },
        decreases pressed@.len() - i,
    {
        assert(string_views(pressed@.take(i + 1)).drop_last() =~= string_views(
            pressed@.take(i as int),
        ));
        assert(string_views(pressed@.take(i + 1)).last() == pressed@[i as int]@);
        match parse_usize(pressed[i].as_str()) {
            Some(n) => {
                state.current_line = n;
                state.can_go_back = true;
                state.in_branch_selection = false;
                moved = true;
            },
            None => {},
        }
        i = i + 1;
    }
    assert(pressed@.take(pressed@.len() as int) =~= pressed@);
    moved
}

/// The current line offers at least one choice.
pub open spec fn has_choices(s: GameState) -> bool {
    &&& s.current_line < s.dialogues@.len()
    &&& s.dialogues@[s.current_line as int].choices matches Some(cs)
    &&& cs@.len() > 0
}

/// Whether the current line offers at least one choice.
pub fn current_has_choices(state: &GameState) -> (r: bool)
    ensures
        r == has_choices(*state),
{
    if state.current_line < state.dialogues.len() {
        match &state.dialogues[state.current_line].choices {
            Some(cs) => cs.len() > 0,
            None => false,
        }
    } else {
        false
    }
}

/// The choice buttons have to be rebuilt: the line offers choices and there
/// are no buttons, or it offers none and buttons remain.
pub fn should_create_buttons(state: &GameState, buttons_exist: bool) -> (r: bool)
    ensures
        r == (has_choices(*state) != buttons_exist),
{
    let with_choices = current_has_choices(state);
    (with_choices && !buttons_exist) || (!with_choices && buttons_exist)
}

/// How the choice buttons are rebuilt.
#[derive(Debug)]
pub enum ButtonPlan {
    /// There is no current line: nothing changes.
    Nothing,
    /// Hide the click area, remove the old buttons and add one button per
    /// choice: its position, text and target.
    Show { choices: Vec<(usize, String, String)> },
    /// Show the click area and remove the old buttons.
    Clear,
}

/// Rebuilds the choice buttons for the current line: a line with choices
/// starts a branch selection, a line without ends it.
pub fn create_dynamic_buttons(state: &mut GameState) -> (plan: ButtonPlan)
    ensures
        final(state).current_line == old(state).current_line,
        final(state).dialogues@ == old(state).dialogues@,
        final(state).can_go_back == old(state).can_go_back,
        final(state).jump_label == old(state).jump_label,
        old(state).current_line >= old(state).dialogues@.len() ==> {
            &&& plan is Nothing
            &&& final(state).in_branch_selection == old(state).in_branch_selection
        },
        old(state).current_line < old(state).dialogues@.len() ==> {
            &&& final(state).in_branch_selection == has_choices(*old(state))
            &&& has_choices(*old(state)) ==> match plan {
                ButtonPlan::Show { choices } => {
                    let cs = old(state).dialogues@[old(state).current_line as int].choices->0@;
                    &&& choices@.len() == cs.len()
                    &&& forall|i: int|
                        0 <= i < choices@.len() ==> (#[trigger] choices@[i]).0 == i
                            && choices@[i].1 == cs[i].text && choices@[i].2 == cs[i].goto
                },
                _ => false,
            }
            &&& !has_choices(*old(state)) ==> plan is Clear
        },
{
    let line = state.current_line;
    if line >= state.dialogues.len() {
        return ButtonPlan::Nothing;
    }
    let with_choices = current_has_choices(state);
    if with_choices {
        state.in_branch_selection = true;
        let mut out: Vec<(usize, String, String)> = Vec::new();
        match &state.dialogues[line].choices {
            Some(cs) => {
                let mut i: usize = 0;
                while i < cs.len()
                    invariant
                        i <= cs@.len(),
                        out@.len() == i,
                        forall|k: int|
                            0 <= k < i ==> (#[trigger] out@[k]).0 == k && out@[k].1 == cs@[k].text
                                && out@[k].2 == cs@[k].goto,
                    decreases cs@.len() - i,
                {
                    out.push((i, cs[i].text.clone(), cs[i].goto.clone()));
                    i = i + 1;
                }
            },
            None => {},
        }
        ButtonPlan::Show { choices: out }
    } else {
        state.in_branch_selection = false;
        ButtonPlan::Clear
    }
}

/// The colour of a speaker's name.
#[derive(Debug, Clone, Copy, PartialEq, Eq, Structural)]
pub enum NameColor {
    /// 希尔薇
    Sylvie,
    /// 我
    Me,
    /// 艾莉娅
    Aria,
    /// 莉莉
    Lily,
    /// Anyone else.
    Plain,
}

/// The colour of the name `name`.
pub open spec fn name_color(name: Seq<char>) -> NameColor {
    if name == "希尔薇"@ {
        NameColor::Sylvie
    } else if name == "我"@ {
        NameColor::Me
    } else if name == "艾莉娅"@ {
        NameColor::Aria
    } else if name == "莉莉"@ {
        NameColor::Lily
    } else {
        NameColor::Plain
    }
}

/// The colour of a speaker's name.
pub fn speaker_color(name: &str) -> (c: NameColor)
    ensures
        c == name_color(name@),
{
    if str_eq(name, "希尔薇") {
        NameColor::Sylvie
    } else if str_eq(name, "我") {
        NameColor::Me
    } else if str_eq(name, "艾莉娅") {
        NameColor::Aria
    } else if str_eq(name, "莉莉") {
        NameColor::Lily
    } else {
        NameColor::Plain
    }
}

/// What the name box shows.
#[derive(Debug)]
pub enum NameBox {
    /// The line has no speaker: hide the box and keep its text.
    Hidden,
    /// The dialogue is over: the box reads `NULL` and is hidden.
    Ended,
    /// Show the speaker's name in its colour.
    Shown { name: String, color: NameColor },
}

/// What checking the current line's jump found.
#[derive(Debug)]
pub enum JumpCheck {
    NoJump,
    /// The line the label leads to.
    Found { line: usize },
    Missing { label: String },
}

/// What the dialogue boxes show for the current line.
#[derive(Debug)]
pub struct DialogueDisplay {
    pub namebox: NameBox,
    pub textbox: String,
    pub jump: JumpCheck,
}

/// What the dialogue boxes show: past the last line, the closing words;
/// otherwise the line's speaker (hidden for `none`) and text, and whether
/// its jump label is known.
pub fn update_dialogue(state: &GameState, labels: &LabelMap) -> (d: DialogueDisplay)
    ensures
        state.current_line >= state.dialogues@.len() ==> {
            &&& d.namebox is Ended
            &&& d.textbox@ == "感谢体验，按下ESC退出"@
            &&& d.jump is NoJump
        },
        state.current_line < state.dialogues@.len() ==> {
            let line = state.dialogues@[state.current_line as int];
            &&& (line.character@ == "none"@ ==> d.namebox is Hidden)
            &&& (line.character@ != "none"@ ==> d.namebox == NameBox::Shown {
                name: line.character,
                color: name_color(line.character@),
            })
            &&& d.textbox == line.text
            &&& match line.jump {
                None => d.jump is NoJump,
                Some(l) => if labels.0@.contains_key(l@) {
                    d.jump == JumpCheck::Found { line: labels.0@[l@] }
                } else {
                    d.jump == JumpCheck::Missing { label: l }
                },
            }
        },
{
    if state.current_line >= state.dialogues.len() {
        return DialogueDisplay {
            namebox: NameBox::Ended,
            textbox: owned("感谢体验，按下ESC退出"),
            jump: JumpCheck::NoJump,
        };
    }
    let line = &state.dialogues[state.current_line];
    let namebox = if str_eq(line.character.as_str(), "none") {
        NameBox::Hidden
    } else {
        NameBox::Shown {
            name: line.character.clone(),
            color: speaker_color(line.character.as_str()),
        }
    };
    let jump = match &line.jump {
        None => JumpCheck::NoJump,
        Some(l) => match labels.0.get(l.as_str()) {
            Some(target) => JumpCheck::Found { line: *target },
            None => JumpCheck::Missing { label: l.clone() },
        },
    };
    DialogueDisplay { namebox, textbox: line.text.clone(), jump }
}

/// What happens to the portrait sprite.
#[derive(Debug)]
pub enum PortraitUpdate {
    /// No current line: hide the sprite.
    Hide,
    /// Show the portrait with this key.
    Show { key: String },
    /// The line's portrait is not loaded: hide the sprite.
    Missing { key: String },
}

/// The portrait sprite for the current line, given the keys of the loaded
/// portraits.
pub fn update_portrait(state: &GameState, loaded: &Vec<String>) -> (u: PortraitUpdate)
    ensures
        state.current_line >= state.dialogues@.len() ==> u is Hide,
        state.current_line < state.dialogues@.len() ==> {
            let key = state.dialogues@[state.current_line as int].portrait;
            if string_views(loaded@).contains(key@) {
                u == PortraitUpdate::Show { key }
            } else {
                u == PortraitUpdate::Missing { key }
            }
        },
{
    if state.current_line >= state.dialogues.len() {
        return PortraitUpdate::Hide;
    }
    let key = &state.dialogues[state.current_line].portrait;
    if holds(loaded, key) {
        PortraitUpdate::Show { key: key.clone() }
    } else {
        PortraitUpdate::Missing { key: key.clone() }
    }
}

/// Whether `v` holds a string equal to `s`.
fn holds(v: &Vec<String>, s: &String) -> (r: bool)
    ensures
        r == string_views(v@).contains(s@),
{
    match position_of(v, s) {
        Some(i) => {
            assert(string_views(v@)[i as int] == s@);
            true
        },
        None => {
            assert(!string_views(v@).contains(s@)) by {
                if string_views(v@).contains(s@) {
                    let k = choose|k: int|
                        0 <= k < string_views(v@).len() && string_views(v@)[k] == s@;
                    assert(v@[k]@ == s@);
                }
            }
            false
        },
    }
}

/// The first position of a string equal to `s` in `v`.
fn position_of(v: &Vec<String>, s: &String) -> (r: Option<usize>)
    ensures
        match r {
            Some(i) => i < v@.len() && v@[i as int]@ == s@ && forall|k: int|
                0 <= k < i ==> v@[k]@ != s@,
            None => forall|k: int| 0 <= k < v@.len() ==> v@[k]@ != s@,
        },
{
    let mut i: usize = 0;
    while i < v.len()
        invariant
            i <= v@.len(),
            forall|k: int| 0 <= k < i ==> v@[k]@ != s@,
        decreases v@.len() - i,
    {
        if str_eq(v[i].as_str(), s.as_str()) {
            return Some(i);
        }
        i = i + 1;
    }
    None
}

/// The name of the last visible background, in the order given.
pub open spec fn last_visible(bs: Seq<(String, bool)>) -> Option<Seq<char>>
    decreases bs.len(),
{
    if bs.len() == 0 {
        None
    } else if bs.last().1 {
        Some(bs.last().0@)
    } else {
        last_visible(bs.drop_last())
    }
}

/// What happens to the background sprites.
#[derive(Debug)]
pub enum BackgroundUpdate {
    Keep,
    /// Fade in and make the background with this name the only visible one.
    SwitchTo { target: String },
    HideAll,
}

/// The background for the current line, given the background sprites by
/// name and visibility: a line naming a background switches to it where it
/// exists and is not the last visible one; a line without a background hides
/// them all.
pub fn update_background(state: &GameState, backgrounds: &Vec<(String, bool)>) -> (u:
    BackgroundUpdate)
    ensures
        state.current_line >= state.dialogues@.len() ==> u is Keep,
        state.current_line < state.dialogues@.len() ==> match state.dialogues@[state.current_line as int].background {
            None => u is HideAll,
            Some(b) => {
                let target = "background_"@ + b@;
                let exists_target = exists|i: int|
                    0 <= i < backgrounds@.len() && (#[trigger] backgrounds@[i]).0@ == target;
                if exists_target && last_visible(backgrounds@) != Some(target) {
                    u matches BackgroundUpdate::SwitchTo { target: t } && t@ == target
                } else {
                    u is Keep
                }
            },
        },
{
    if state.current_line >= state.dialogues.len() {
        return BackgroundUpdate::Keep;
    }
    match &state.dialogues[state.current_line].background {
        None => BackgroundUpdate::HideAll,
        Some(b) => {
            let target = concat("background_", b.as_str());
            let mut current: Option<usize> = None;
            let mut exists_target = false;
            let mut i: usize = 0;
            while i < backgrounds.len()
                invariant
                    i <= backgrounds@.len(),
                    match current {
                        Some(c) => c < i && last_visible(backgrounds@.take(i as int)) == Some(
                            backgrounds@[c as int].0@,
                        ),
                        None => last_visible(backgrounds@.take(i as int)) is None,
                    },
                    exists_target == exists|k: int|
                        0 <= k < i && (#[trigger] backgrounds@[k]).0@ == target@,
                decreases backgrounds@.len() - i,
            {
                assert(backgrounds@.take(i + 1).drop_last() =~= backgrounds@.take(i as int));
                if backgrounds[i].1 {
                    current = Some(i);
                }
                if str_eq(backgrounds[i].0.as_str(), target.as_str()) {
                    exists_target = true;
                }
                i = i + 1;
            }
            assert(backgrounds@.take(backgrounds@.len() as int) =~= backgrounds@);
            let same = match current {
                Some(c) => str_eq(backgrounds[c].0.as_str(), target.as_str()),
                None => false,
            };
            if exists_target && !same {
                BackgroundUpdate::SwitchTo { target }
            } else {
                BackgroundUpdate::Keep
            }
        },
    }
}

/// What happens to the flash animations, all of which are hidden first.
#[derive(Debug)]
pub struct SwfUpdate {
    /// The name of the animation the line asks for.
    pub target: Option<String>,
    /// Whether an animation of that name exists.
    pub found_name: bool,
    /// The position of the animation to show.
    pub show: Option<usize>,
}

/// The flash animation for the current line, given the animations by name
/// and whether any animation data has loaded: the first animation named
/// `swf_` and the line's name is shown once data has loaded.
pub fn update_swf(state: &GameState, names: &Vec<String>, any_loaded: bool) -> (u: SwfUpdate)
    ensures
        !(state.current_line < state.dialogues@.len() && state.dialogues@[state.current_line as int].swf is Some) ==> {
            &&& u.target is None
            &&& u.show is None
            &&& !u.found_name
        },
        state.current_line < state.dialogues@.len() ==> match state.dialogues@[state.current_line as int].swf {
            Some(n) => {
                let target = "swf_"@ + n@;
                &&& u.target matches Some(t) && t@ == target
                &&& u.found_name == string_views(names@).contains(target)
                &&& match u.show {
                    Some(i) => any_loaded && i < names@.len() && names@[i as int]@ == target
                        && forall|k: int| 0 <= k < i ==> names@[k]@ != target,
                    None => !any_loaded || !string_views(names@).contains(target),
                }
            },
            None => true,
        },
{
    if state.current_line >= state.dialogues.len() {
        return SwfUpdate { target: None, found_name: false, show: None };
    }
    match &state.dialogues[state.current_line].swf {
        None => SwfUpdate { target: None, found_name: false, show: None },
        Some(n) => {
            let target = concat("swf_", n.as_str());
            let pos = position_of(names, &target);
            let found_name = pos.is_some();
            proof {
                match pos {
                    Some(i) => {
                        assert(string_views(names@)[i as int] == target@);
                    },
                    None => {
                        if string_views(names@).contains(target@) {
                            let k = choose|k: int|
                                0 <= k < string_views(names@).len() && string_views(names@)[k]
                                    == target@;
                            assert(names@[k]@ == target@);
                        }
                    },
                }
            }
            let show = if any_loaded {
                pos
            } else {
                None
            };
            SwfUpdate { target: Some(target), found_name, show }
        },
    }
}

/// An entity name that leaving the game removes.
pub open spec fn is_game_entity(name: Seq<char>) -> bool {
    ||| name == "textbox"@
    ||| name == "namebox"@
    ||| name == "sidebox"@
    ||| name == "spritebox"@
    ||| name == "click_area"@
    ||| name == "choice_container"@
    ||| name == "svgload"@
    ||| has_prefix(name, "background_"@)
    ||| has_prefix(name, "swf_"@)
    ||| has_prefix(name, "choice_"@)
}

/// Whether leaving the game removes the entity with this name.
pub fn is_game_entity_name(name: &str) -> (r: bool)
    ensures
        r == is_game_entity(name@),
{
    str_eq(name, "textbox") || str_eq(name, "namebox") || str_eq(name, "sidebox") || str_eq(
        name,
        "spritebox",
    ) || str_eq(name, "click_area") || str_eq(name, "choice_container") || str_eq(
        name,
        "svgload",
    ) || starts_with(name, "background_") || starts_with(name, "swf_") || starts_with(
        name,
        "choice_",
    )
}

/// The path of a character's default portrait: the configured path without
/// its leading `assets/` prefixes, with backslashes turned into slashes,
/// followed by `/default.png`.
pub open spec fn portrait_path_of(path: Seq<char>) -> Seq<char> {
    let trimmed = if has_prefix(path, "assets/"@) {
        trim_prefix_all(path, "assets/"@)
    } else {
        path
    };
    replace_char_all(trimmed, '\\', '/') + "/default.png"@
}

/// The path of a character's default portrait.
pub fn portrait_path(character_path: &str) -> (r: String)
    ensures
        r@ == portrait_path_of(character_path@),
{
    proof {
        reveal_strlit("assets/");
    }
    let trimmed = if starts_with(character_path, "assets/") {
        trim_start_matches(character_path, "assets/")
    } else {
        owned(character_path)
    };
    let slashed = replace_char(trimmed.as_str(), '\\', '/');
    concat(slashed.as_str(), "/default.png")
}

/// The default portrait of each configured character: its name and the path
/// of its portrait, in the order of the character table.
pub fn portrait_paths(config: &MainConfig) -> (r: Vec<(String, String)>)
    ensures
        r@.len() == config.assets.characters.pairs().len(),
        forall|i: int|
            0 <= i < r@.len() ==> (#[trigger] r@[i]).0@ == config.assets.characters.pairs()[i].0
                && r@[i].1@ == portrait_path_of(config.assets.characters.pairs()[i].1@),
{
    let table = &config.assets.characters;
    let n = table.len();
    let mut out: Vec<(String, String)> = Vec::new();
    let mut i: usize = 0;
    while i < n
        invariant
            n == table.pairs().len(),
            i <= n,
            out@.len() == i,
            forall|k: int|
                0 <= k < i ==> (#[trigger] out@[k]).0@ == table.pairs()[k].0 && out@[k].1@
                    == portrait_path_of(table.pairs()[k].1@),
        decreases n - i,
    {
        let (name, path) = table.entry(i);
        out.push((name.clone(), portrait_path(path.as_str())));
        i = i + 1;
    }
    out
}

/// The sprites that a table of assets becomes: for each entry, the name
/// `prefix` followed by its key, and its path, in the order of the table.
pub fn named_entities(prefix: &str, table: &StrMap<String>) -> (r: Vec<(String, String)>)
    ensures
        r@.len() == table.pairs().len(),
        forall|i: int|
            0 <= i < r@.len() ==> (#[trigger] r@[i]).0@ == prefix@ + table.pairs()[i].0
                && r@[i].1 == table.pairs()[i].1,
{
    let n = table.len();
    let mut out: Vec<(String, String)> = Vec::new();
    let mut i: usize = 0;
    while i < n
        invariant
            n == table.pairs().len(),
            i <= n,
            out@.len() == i,
            forall|k: int|
                0 <= k < i ==> (#[trigger] out@[k]).0@ == prefix@ + table.pairs()[k].0
                    && out@[k].1 == table.pairs()[k].1,
        decreases n - i,
    {
        let (key, path) = table.entry(i);
        out.push((concat(prefix, key.as_str()), path.clone()));
        i = i + 1;
    }
    out
}

/// The text after replacing, in order, `prefix` followed by each key with
/// that key's value.
pub open spec fn replace_each(s: Seq<char>, prefix: Seq<char>, pairs: Seq<(Seq<char>, String)>) -> Seq<char>
    decreases pairs.len(),
{
    if pairs.len() == 0 {
        s
    } else {
        replace_each(
            replace_all(s, prefix + pairs[0].0, pairs[0].1@),
            prefix,
            pairs.skip(1),
        )
    }
}

/// Text in which none of the table's patterns occurs is left as it is.
proof fn lemma_replace_each_absent(s: Seq<char>, prefix: Seq<char>, pairs: Seq<(Seq<char>, String)>)
    requires
        prefix.len() > 0,
        forall|i: int| 0 <= i < pairs.len() ==> !contains_seq(s, prefix + #[trigger] pairs[i].0),
    ensures
        replace_each(s, prefix, pairs) == s,
    decreases pairs.len(),
{
    if pairs.len() > 0 {
        assert(!contains_seq(s, prefix + pairs[0].0));
        lemma_replace_absent(s, prefix + pairs[0].0, pairs[0].1@);
        let rest = pairs.skip(1);
        assert forall|i: int| 0 <= i < rest.len() implies !contains_seq(s, prefix + #[trigger] rest[i].0) by {
            assert(rest[i] == pairs[i + 1]);
        }
        lemma_replace_each_absent(s, prefix, rest);
    }
}

/// Every variable of a table is substituted by its own value: the text
/// `prefix` followed by the key of entry `j` becomes that entry's value,
/// where no other entry's pattern occurs in that text and no later entry's
/// pattern occurs in the value.
pub proof fn law_each_variable_is_substituted(
    prefix: Seq<char>,
    pairs: Seq<(Seq<char>, String)>,
    j: int,
)
    requires
        prefix.len() > 0,
        0 <= j < pairs.len(),
        forall|i: int|
            0 <= i < pairs.len() && i != j ==> !contains_seq(
                prefix + pairs[j].0,
                prefix + #[trigger] pairs[i].0,
            ),
        forall|i: int|
            j < i < pairs.len() ==> !contains_seq(pairs[j].1@, prefix + #[trigger] pairs[i].0),
    ensures
        replace_each(prefix + pairs[j].0, prefix, pairs) == pairs[j].1@,
    decreases pairs.len(),
{
    let s = prefix + pairs[j].0;
    let rest = pairs.skip(1);
    if j == 0 {
        lemma_replace_whole(s, pairs[0].1@);
        assert forall|i: int| 0 <= i < rest.len() implies !contains_seq(
            pairs[0].1@,
            prefix + #[trigger] rest[i].0,
        ) by {
            assert(rest[i] == pairs[i + 1]);
        }
        lemma_replace_each_absent(pairs[0].1@, prefix, rest);
    } else {
        assert(!contains_seq(s, prefix + pairs[0].0));
        lemma_replace_absent(s, prefix + pairs[0].0, pairs[0].1@);
        assert(rest[j - 1] == pairs[j]);
        assert forall|i: int| 0 <= i < rest.len() && i != j - 1 implies !contains_seq(
            prefix + rest[j - 1].0,
            prefix + #[trigger] rest[i].0,
        ) by {
            assert(rest[i] == pairs[i + 1]);
        }
        assert forall|i: int| j - 1 < i < rest.len() implies !contains_seq(
            rest[j - 1].1@,
            prefix + #[trigger] rest[i].0,
        ) by {
            assert(rest[i] == pairs[i + 1]);
        }
        law_each_variable_is_substituted(prefix, rest, j - 1);
    }
}

/// The dialogue file after its variables are replaced: `$title` by the
/// title, then `$backgrounds.<name>`, `$audio.bgm.<name>`,
/// `$audio.sfx.<name>` and `$characters.<name>` by the paths of those
/// tables, in the order of their entries.
pub open spec fn substituted(text: Seq<char>, config: MainConfig) -> Seq<char> {
    let s1 = replace_all(text, "$title"@, config.title@);
    let s2 = replace_each(s1, "$backgrounds."@, config.assets.backgrounds.pairs());
    let s3 = replace_each(s2, "$audio.bgm."@, config.assets.audio.bgm.pairs());
    let s4 = replace_each(s3, "$audio.sfx."@, config.assets.audio.sfx.pairs());
    replace_each(s4, "$characters."@, config.assets.characters.pairs())
}

/// Replaces `prefix` followed by each key of `table` with that key's value,
/// in the order of the entries.
fn replace_table(text: String, prefix: &str, table: &StrMap<String>) -> (r: String)
    requires
        prefix@.len() > 0,
    ensures
        r@ == replace_each(text@, prefix@, table.pairs()),
{
    let n = table.len();
    let mut out = text;
    let mut i: usize = 0;
    let ghost whole = replace_each(text@, prefix@, table.pairs());
    assert(table.pairs().skip(0) =~= table.pairs());
    while i < n
        invariant
            n == table.pairs().len(),
            i <= n,
            prefix@.len() > 0,
            whole == replace_each(out@, prefix@, table.pairs().skip(i as int)),
        decreases n - i,
    {
        let (key, value) = table.entry(i);
        let pattern = concat(prefix, key.as_str());
        let ghost rest = table.pairs().skip(i as int);
        assert(rest[0] == table.pairs()[i as int]);
        assert(rest.skip(1) =~= table.pairs().skip(i + 1));
        out = replace(out.as_str(), pattern.as_str(), value.as_str());
        i = i + 1;
    }
    assert(table.pairs().skip(n as int).len() == 0);
    out
}

/// Replaces the variables of the dialogue file with the values the
/// configuration gives them.
pub fn substitute_variables(text: &str, config: &MainConfig) -> (r: String)
    ensures
        r@ == substituted(text@, *config),
{
    proof {
        reveal_strlit("$title");
        reveal_strlit("$backgrounds.");
        reveal_strlit("$audio.bgm.");
        reveal_strlit("$audio.sfx.");
        reveal_strlit("$characters.");
    }
    let s1 = replace(text, "$title", config.title.as_str());
    let s2 = replace_table(s1, "$backgrounds.", &config.assets.backgrounds);
    let s3 = replace_table(s2, "$audio.bgm.", &config.assets.audio.bgm);
    let s4 = replace_table(s3, "$audio.sfx.", &config.assets.audio.sfx);
    replace_table(s4, "$characters.", &config.assets.characters)
}

/// The text of the dialogue box as it is typed out.
#[derive(Debug)]
pub struct TypewriterText {
    pub full_text: String,
    pub current_length: usize,
}

impl TypewriterText {
    /// One step of the typing timer: below the text's length in bytes the
    /// length grows by one and the first that many characters are shown.
    pub fn tick(&mut self) -> (shown: Option<String>)
        ensures
            final(self).full_text == old(self).full_text,
            old(self).current_length < byte_len(old(self).full_text@) ==> {
                &&& final(self).current_length == old(self).current_length + 1
                &&& shown matches Some(t) && t@ == first_chars(
                    old(self).full_text@,
                    final(self).current_length as int,
                )
            },
            old(self).current_length >= byte_len(old(self).full_text@) ==> {
                &&& final(self).current_length == old(self).current_length
                &&& shown is None
            },
    {
        if self.current_length < utf8_len(&self.full_text) {
            self.current_length = self.current_length + 1;
            Some(take_chars(self.full_text.as_str(), self.current_length))
        } else {
            None
        }
    }
}

/// A typewriter over a line of dialogue.
#[derive(Debug)]
pub struct Typewriter {
    pub full_text: String,
    pub current_index: usize,
    pub is_finished: bool,
}

impl Typewriter {
    /// The text typed so far: all of it once the index reaches the text's
    /// length in bytes, otherwise its first `current_index` characters.
    pub fn get_current_text(&self) -> (r: String)
        ensures
            self.current_index >= byte_len(self.full_text@) ==> r@ == self.full_text@,
            self.current_index < byte_len(self.full_text@) ==> r@ == first_chars(
                self.full_text@,
                self.current_index as int,
            ),
    {
        if self.current_index >= utf8_len(&self.full_text) {
            return self.full_text.clone();
        }
        take_chars(self.full_text.as_str(), self.current_index)
    }
}

} // verus!
