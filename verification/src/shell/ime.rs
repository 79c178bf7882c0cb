//! Composition input: a state machine from composition events to what the
//! shell shows and sends.
//!
//! Committed text goes to the program as it is. It is no key, and no encoder
//! mode may change it.
use vstd::prelude::*;

use crate::shell::utf16::{self, caret_chars};
use crate::text::chars_of;

verus! {

/// What happened to a composition.
#[derive(Debug, Clone, PartialEq, Eq)]
pub enum CompositionEvent {
    /// A composition began.
    Start,
    /// The preview changed; the caret is counted in characters.
    Update { comp_text: String, caret: usize },
    /// This text was committed.
    Commit { result_text: String },
    /// The composition is over.
    End,
    /// The window lost the focus.
    FocusLost,
}

/// What the shell has to do.
#[derive(Debug, Clone, PartialEq, Eq)]
pub enum ImeAction {
    /// Draw the preview at the cursor.
    RenderInline { text: String, caret: usize },
    /// Draw no preview.
    ClearInline,
    /// Send this text to the program, once.
    SendToPty(String),
}

/// What a [`CompositionEvent`] says.
#[verifier::ext_equal]
pub enum EventModel {
    Start,
    Update { comp_text: Seq<char>, caret: usize },
    Commit { result_text: Seq<char> },
    End,
    FocusLost,
}

impl View for CompositionEvent {
    type V = EventModel;

    open spec fn view(&self) -> EventModel {
        match self {
            CompositionEvent::Start => EventModel::Start,
            CompositionEvent::Update { comp_text, caret } => EventModel::Update {
                comp_text: comp_text@,
                caret: *caret,
            },
            CompositionEvent::Commit { result_text } => EventModel::Commit {
                result_text: result_text@,
            },
            CompositionEvent::End => EventModel::End,
            CompositionEvent::FocusLost => EventModel::FocusLost,
        }
    }
}

/// What an [`ImeAction`] asks for.
#[verifier::ext_equal]
pub enum ActionModel {
    RenderInline { text: Seq<char>, caret: usize },
    ClearInline,
    SendToPty(Seq<char>),
}

impl View for ImeAction {
    type V = ActionModel;

    open spec fn view(&self) -> ActionModel {
        match self {
            ImeAction::RenderInline { text, caret } => ActionModel::RenderInline {
                text: text@,
                caret: *caret,
            },
            ImeAction::ClearInline => ActionModel::ClearInline,
            ImeAction::SendToPty(text) => ActionModel::SendToPty(text@),
        }
    }
}

/// What a list of actions asks for.
pub open spec fn action_models(list: Seq<ImeAction>) -> Seq<ActionModel> {
    list.map_values(|a: ImeAction| a@)
}

/// What a list of events says.
pub open spec fn event_models(list: Seq<CompositionEvent>) -> Seq<EventModel> {
    list.map_values(|e: CompositionEvent| e@)
}

/// The state of a composition.
#[derive(Debug, Clone, PartialEq, Eq)]
pub enum ImeState {
    Idle,
    Composing { text: String, caret: usize },
}

/// The composition state machine.
#[derive(Debug)]
pub struct ImeSession {
    state: ImeState,
}

/// What an [`ImeSession`] holds: the preview and its caret while composing.
pub type ImeModel = Option<(Seq<char>, usize)>;

/// A caret, but no further than the end of the text.
pub open spec fn clamped(caret: usize, comp_text: Seq<char>) -> usize {
    if caret <= comp_text.len() {
        caret
    } else {
        comp_text.len() as usize
    }
}

/// The state after an event.
pub open spec fn next_state(event: EventModel) -> ImeModel {
    match event {
        EventModel::Start => Some((Seq::empty(), 0)),
        EventModel::Update { comp_text, caret } => Some((comp_text, clamped(caret, comp_text))),
        EventModel::Commit { .. } | EventModel::End | EventModel::FocusLost => None,
    }
}

/// What the shell has to do about an event.
pub open spec fn actions_for(state: ImeModel, event: EventModel) -> Seq<ActionModel> {
    match event {
        EventModel::Start => Seq::empty(),
        EventModel::Update { comp_text, caret } => if comp_text.len() == 0 {
            seq![ActionModel::ClearInline]
        } else {
            seq![ActionModel::RenderInline { text: comp_text, caret: clamped(caret, comp_text) }]
        },
        EventModel::Commit { result_text } => if result_text.len() == 0 {
            seq![ActionModel::ClearInline]
        } else {
            seq![ActionModel::ClearInline, ActionModel::SendToPty(result_text)]
        },
        EventModel::End | EventModel::FocusLost => if state is Some {
            seq![ActionModel::ClearInline]
        } else {
            Seq::empty()
        },
    }
}

fn one(action: ImeAction) -> (r: Vec<ImeAction>)
    ensures
        action_models(r@) == seq![action@],
{
    let mut list: Vec<ImeAction> = Vec::new();
    list.push(action);
    assert(action_models(list@) =~= seq![action@]);
    list
}

fn none() -> (r: Vec<ImeAction>)
    ensures
        action_models(r@) == Seq::<ActionModel>::empty(),
{
    let list: Vec<ImeAction> = Vec::new();
    assert(action_models(list@) =~= Seq::<ActionModel>::empty());
    list
}

impl ImeSession {
    pub closed spec fn view(&self) -> ImeModel {
        match self.state {
            ImeState::Idle => None,
            ImeState::Composing { text, caret } => Some((text@, caret)),
        }
    }

    /// No composition.
    pub fn new() -> (r: Self)
        ensures
            r@ is None,
    {
        ImeSession { state: ImeState::Idle }
    }

    /// Whether a composition is in flight.
    pub fn is_composing(&self) -> (r: bool)
        ensures
            r == (self@ is Some),
    {
        match self.state {
            ImeState::Idle => false,
            ImeState::Composing { .. } => true,
        }
    }

    /// Takes in an event and gives what the shell has to do, in order.
    pub fn on_event(&mut self, ev: CompositionEvent) -> (r: Vec<ImeAction>)
        ensures
            final(self)@ == next_state(ev@),
            action_models(r@) == actions_for(old(self)@, ev@),
    {
        match ev {
            CompositionEvent::Start => {
                self.state = ImeState::Composing { text: String::new(), caret: 0 };
                none()
            },
            CompositionEvent::Update { comp_text, caret } => {
                let count = chars_of(comp_text.as_str()).len();
                let caret: usize = if caret <= count {
                    caret
                } else {
                    count
                };
                self.state = ImeState::Composing { text: comp_text.clone(), caret };
                if comp_text.as_str().is_empty() {
                    one(ImeAction::ClearInline)
                } else {
                    one(ImeAction::RenderInline { text: comp_text, caret })
                }
            },
            CompositionEvent::Commit { result_text } => {
                self.state = ImeState::Idle;
                let mut list = one(ImeAction::ClearInline);
                if !result_text.as_str().is_empty() {
                    let ghost before = list@;
                    let send = ImeAction::SendToPty(result_text);
                    list.push(send);
                    assert(action_models(list@) =~= action_models(before).push(send@));
                    assert(action_models(list@) =~= seq![ActionModel::ClearInline, send@]);
                }
                list
            },
            CompositionEvent::End | CompositionEvent::FocusLost => {
                let was_composing = self.is_composing();
                self.state = ImeState::Idle;
                if was_composing {
                    one(ImeAction::ClearInline)
                } else {
                    none()
                }
            },
        }
    }
}

impl Default for ImeSession {
    fn default() -> (r: Self)
        ensures
            r@ is None,
    {
        ImeSession::new()
    }
}

/// The texts that a list of actions sends.
pub open spec fn sent_texts(actions: Seq<ActionModel>) -> Seq<Seq<char>>
    decreases actions.len(),
{
    if actions.len() == 0 {
        Seq::empty()
    } else {
        match actions.last() {
            ActionModel::SendToPty(text) => sent_texts(actions.drop_last()).push(text),
            _ => sent_texts(actions.drop_last()),
        }
    }
}

/// Committed text is sent exactly once, and nothing else ever is: a commit
/// sends its text, unless that is empty, and every other event, the loss of
/// focus included, sends nothing.
pub proof fn only_commits_send(state: ImeModel, event: EventModel)
    ensures
        sent_texts(actions_for(state, event)) == (match event {
            EventModel::Commit { result_text } => if result_text.len() > 0 {
                seq![result_text]
            } else {
                Seq::empty()
            },
            _ => Seq::empty(),
        }),
{
    reveal_with_fuel(sent_texts, 3);
    let actions = actions_for(state, event);
    if actions.len() == 2 {
        assert(actions.drop_last() =~= seq![ActionModel::ClearInline]);
        assert(actions.drop_last().drop_last() =~= Seq::<ActionModel>::empty());
    } else if actions.len() == 1 {
        assert(actions.drop_last() =~= Seq::<ActionModel>::empty());
    }
}

/// The state of a session after a run of events.
pub open spec fn state_after(state: ImeModel, events: Seq<EventModel>) -> ImeModel {
    if events.len() == 0 {
        state
    } else {
        next_state(events.last())
    }
}

/// Everything the shell has to do in a run of events.
pub open spec fn actions_of_run(state: ImeModel, events: Seq<EventModel>) -> Seq<ActionModel>
    decreases events.len(),
{
    if events.len() == 0 {
        Seq::empty()
    } else {
        actions_of_run(state, events.drop_last()) + actions_for(
            state_after(state, events.drop_last()),
            events.last(),
        )
    }
}

/// The texts that a run of events commits, without the empty ones.
pub open spec fn commits(events: Seq<EventModel>) -> Seq<Seq<char>>
    decreases events.len(),
{
    if events.len() == 0 {
        Seq::empty()
    } else {
        match events.last() {
            EventModel::Commit { result_text } => if result_text.len() > 0 {
                commits(events.drop_last()).push(result_text)
            } else {
                commits(events.drop_last())
            },
            _ => commits(events.drop_last()),
        }
    }
}

proof fn lemma_sent_concat(a: Seq<ActionModel>, b: Seq<ActionModel>)
    ensures
        sent_texts(a + b) == sent_texts(a) + sent_texts(b),
    decreases b.len(),
{
    if b.len() == 0 {
        assert(a + b =~= a);
        assert(sent_texts(a) + sent_texts(b) =~= sent_texts(a));
    } else {
        lemma_sent_concat(a, b.drop_last());
        assert((a + b).drop_last() =~= a + b.drop_last());
        assert(sent_texts(a + b) =~= sent_texts(a) + sent_texts(b));
    }
}

/// Over a whole session the program receives the committed texts, each once
/// and in order, and nothing else.
pub proof fn session_sends_its_commits(state: ImeModel, events: Seq<EventModel>)
    ensures
        sent_texts(actions_of_run(state, events)) == commits(events),
    decreases events.len(),
{
    if events.len() > 0 {
        let before = events.drop_last();
        let at = state_after(state, before);
        session_sends_its_commits(state, before);
        only_commits_send(at, events.last());
        lemma_sent_concat(actions_of_run(state, before), actions_for(at, events.last()));
        assert(sent_texts(actions_of_run(state, events)) =~= commits(events));
    }
}

/// After the loss of focus no composition is in flight and the preview that
/// was shown is cleared.
pub proof fn focus_loss_cancels(state: ImeModel)
    ensures
        next_state(EventModel::FocusLost) is None,
        state is Some ==> actions_for(state, EventModel::FocusLost) == seq![
            ActionModel::ClearInline,
        ],
{
}

/// The inline preview that the renderer draws, at the cell of the cursor.
#[derive(Debug, Clone, PartialEq, Eq)]
pub struct CompositionOverlay {
    pub text: String,
    pub caret_idx: usize,
    pub origin_col: u16,
    pub origin_row: u16,
}

// ---- composition messages -------------------------------------------------------

/// Message flag: the message carries committed text.
pub const GCS_RESULTSTR: u32 = 0x0800;

/// Message flag: the message carries a preview.
pub const GCS_COMPSTR: u32 = 0x0008;

/// The events of a composition message with the given flags and strings. One
/// message can carry both a commit and a new preview; the commit comes first.
pub open spec fn message_events(
    flags: u32,
    result: Seq<char>,
    comp: Seq<char>,
    caret_units: i32,
) -> Seq<EventModel> {
    (if flags & GCS_RESULTSTR != 0 && result.len() > 0 {
        seq![EventModel::Commit { result_text: result }]
    } else {
        Seq::empty()
    }) + (if flags & GCS_COMPSTR != 0 {
        seq![
            EventModel::Update {
                comp_text: comp,
                caret: (if caret_units < 0 {
                    comp.len() as int
                } else {
                    utf16::char_position(comp, caret_units as int, 0)
                }) as usize,
            },
        ]
    } else {
        Seq::empty()
    })
}

/// The events of a composition message.
pub fn parse_composition(flags: u32, result: String, comp: String, caret_units: i32) -> (r: Vec<
    CompositionEvent,
>)
    ensures
        event_models(r@) == message_events(flags, result@, comp@, caret_units),
{
    let ghost result_text = result@;
    let ghost comp_text = comp@;
    let mut out: Vec<CompositionEvent> = Vec::new();
    if flags & GCS_RESULTSTR != 0 {
        if !result.as_str().is_empty() {
            out.push(CompositionEvent::Commit { result_text: result });
        }
    }
    let ghost first = out@;
    if flags & GCS_COMPSTR != 0 {
        let caret = caret_chars(caret_units, comp.as_str());
        out.push(CompositionEvent::Update { comp_text: comp, caret });
    }
    assert(event_models(out@) =~= message_events(flags, result_text, comp_text, caret_units));
    out
}

/// A rectangle around the cursor, in pixels.
#[derive(Debug, Clone, Copy, PartialEq, Eq, Structural)]
pub struct CursorRect {
    pub x: i32,
    pub y: i32,
    pub w: i32,
    pub h: i32,
}

impl Default for CursorRect {
    fn default() -> (r: Self)
        ensures
            r == (CursorRect { x: 0, y: 0, w: 0, h: 0 }),
    {
        CursorRect { x: 0, y: 0, w: 0, h: 0 }
    }
}

/// The area that the candidate list must leave free.
#[derive(Debug, Clone, Copy, PartialEq, Eq, Structural)]
pub struct ExcludeArea {
    pub left: i32,
    pub top: i32,
    pub right: i32,
    pub bottom: i32,
}

/// The area that the candidate list must leave free: the cursor's cell.
pub fn candidate_area(rect: CursorRect) -> (r: ExcludeArea)
    requires
        i32::MIN <= rect.x + rect.w <= i32::MAX,
        i32::MIN <= rect.y + rect.h <= i32::MAX,
    ensures
        r.left == rect.x,
        r.top == rect.y,
        r.right == rect.x + rect.w,
        r.bottom == rect.y + rect.h,
{
    ExcludeArea { left: rect.x, top: rect.y, right: rect.x + rect.w, bottom: rect.y + rect.h }
}

/// Context flag: the system draws its own composition window.
pub const ISC_SHOWUICOMPOSITIONWINDOW: usize = 0x8000_0000;

/// The context flags without the one for the system's own composition window,
/// so that it is not drawn over the inline preview.
pub fn suppress_system_composition_window(lparam: isize) -> (r: isize)
    ensures
        r as usize == (lparam as usize) & !ISC_SHOWUICOMPOSITIONWINDOW,
        (r as usize) & ISC_SHOWUICOMPOSITIONWINDOW == 0,
        (lparam as usize) & ISC_SHOWUICOMPOSITIONWINDOW == 0 ==> r == lparam,
{
    let bits = lparam as usize;
    let kept = bits & !ISC_SHOWUICOMPOSITIONWINDOW;
    assert((bits & !0x8000_0000usize) & 0x8000_0000usize == 0) by (bit_vector);
    assert(bits & 0x8000_0000usize == 0 ==> bits & !0x8000_0000usize == bits) by (bit_vector);
    assert((kept as isize) as usize == kept) by (bit_vector);
    assert((lparam as usize) as isize == lparam) by (bit_vector);
    kept as isize
}

// ---- characters that follow a commit ---------------------------------------------

/// Counts the character messages that repeat committed text. The window system
/// may deliver a commit once more, character by character; those messages are
/// swallowed.
#[derive(Debug)]
pub struct CommitSwallow {
    remaining: usize,
}

impl CommitSwallow {
    /// How many character messages are still swallowed.
    pub closed spec fn view(&self) -> nat {
        self.remaining as nat
    }

    /// Nothing is swallowed.
    pub fn new() -> (r: Self)
        ensures
            r@ == 0,
    {
        CommitSwallow { remaining: 0 }
    }

    /// Swallows one message for each character of a committed text.
    pub fn arm(&mut self, committed: &str)
        ensures
            final(self)@ == committed@.len(),
    {
        self.remaining = chars_of(committed).len();
    }

    /// Whether a message would be swallowed.
    pub fn is_armed(&self) -> (r: bool)
        ensures
            r == (self@ > 0),
    {
        self.remaining > 0
    }

    /// Takes in a character message and says whether it is swallowed.
    pub fn offer(&mut self) -> (r: bool)
        ensures
            r == (old(self)@ > 0),
            final(self)@ == (if old(self)@ > 0 {
                (old(self)@ - 1) as nat
            } else {
                0
            }),
    {
        if self.remaining > 0 {
            self.remaining -= 1;
            true
        } else {
            false
        }
    }

    /// Swallows nothing more.
    pub fn disarm(&mut self)
        ensures
            final(self)@ == 0,
    {
        self.remaining = 0;
    }
}

/// How many of a number of character messages are swallowed.
pub open spec fn swallowed(armed: nat, messages: nat) -> nat
    decreases messages,
{
    if messages == 0 {
        0
    } else if armed > 0 {
        1 + swallowed((armed - 1) as nat, (messages - 1) as nat)
    } else {
        swallowed(0, (messages - 1) as nat)
    }
}

/// A commit swallows exactly one message for each of its characters: of more
/// messages the surplus passes, of fewer none does.
pub proof fn one_message_per_character(committed: Seq<char>, messages: nat)
    ensures
        swallowed(committed.len(), messages) == (if messages <= committed.len() {
            messages
        } else {
            committed.len()
        }),
{
    lemma_swallowed(committed.len(), messages);
}

proof fn lemma_swallowed(armed: nat, messages: nat)
    ensures
        swallowed(armed, messages) == (if messages <= armed {
            messages
        } else {
            armed
        }),
    decreases messages,
{
    if messages > 0 {
        if armed > 0 {
            lemma_swallowed((armed - 1) as nat, (messages - 1) as nat);
        } else {
            lemma_swallowed(0, (messages - 1) as nat);
        }
    }
}

impl Default for CommitSwallow {
    fn default() -> (r: Self)
        ensures
            r@ == 0,
    {
        CommitSwallow::new()
    }
}

/// The preview follows the composition: an update shows its text with the
/// caret in it, an empty one clears it, and a commit clears it before the text
/// is sent.
pub proof fn preview_follows_the_composition(state: ImeModel, s: Seq<char>, caret: usize)
    requires
        s.len() <= usize::MAX,
    ensures
        s.len() > 0 && caret <= s.len() ==> actions_for(
            state,
            EventModel::Update { comp_text: s, caret },
        ) == seq![ActionModel::RenderInline { text: s, caret }] && next_state(
            EventModel::Update { comp_text: s, caret },
        ) == Some((s, caret)),
        s.len() > 0 && caret > s.len() ==> actions_for(
            state,
            EventModel::Update { comp_text: s, caret },
        ) == seq![ActionModel::RenderInline { text: s, caret: s.len() as usize }],
        s.len() == 0 ==> actions_for(state, EventModel::Update { comp_text: s, caret }) == seq![
            ActionModel::ClearInline,
        ],
        s.len() > 0 ==> actions_for(state, EventModel::Commit { result_text: s }) == seq![
            ActionModel::ClearInline,
            ActionModel::SendToPty(s),
        ],
        s.len() == 0 ==> actions_for(state, EventModel::Commit { result_text: s }) == seq![
            ActionModel::ClearInline,
        ],
        actions_for(state, EventModel::Start).len() == 0,
        state is None ==> actions_for(state, EventModel::End).len() == 0 && actions_for(
            state,
            EventModel::FocusLost,
        ).len() == 0,
        state is Some ==> actions_for(state, EventModel::End) == seq![ActionModel::ClearInline],
{
}

/// A composition is in flight from its start, through its updates, until it is
/// committed, ended or cancelled by the loss of focus.
pub proof fn composition_has_a_start_and_an_end(s: Seq<char>, caret: usize)
    ensures
        next_state(EventModel::Start) is Some,
        next_state(EventModel::Update { comp_text: s, caret }) is Some,
        next_state(EventModel::Commit { result_text: s }) is None,
        next_state(EventModel::End) is None,
        next_state(EventModel::FocusLost) is None,
{
}

/// What a composition message carries: with flag 0x800 its committed text,
/// unless that is empty, and with flag 0x8 its preview. Where it carries both,
/// the commit comes first.
pub proof fn messages_carry_what_they_flag(
    flags: u32,
    result: Seq<char>,
    comp: Seq<char>,
    caret_units: i32,
)
    ensures
        flags & 0x800 != 0 && result.len() > 0 ==> message_events(
            flags,
            result,
            comp,
            caret_units,
        ).len() > 0 && message_events(flags, result, comp, caret_units)[0] == (EventModel::Commit {
            result_text: result,
        }),
        flags & 0x8 != 0 ==> message_events(flags, result, comp, caret_units).len() > 0
            && message_events(flags, result, comp, caret_units).last() is Update && message_events(
            flags,
            result,
            comp,
            caret_units,
        ).last()->comp_text == comp,
        message_events(flags, result, comp, caret_units).len() == (if flags & 0x800 != 0
            && result.len() > 0 {
            1int
        } else {
            0
        }) + (if flags & 0x8 != 0 {
            1int
        } else {
            0
        }),
{
}

/// The caret of a preview stands behind as many characters as the units before
/// it spell, and at the end where the message gives none.
pub proof fn message_carets_count_characters(
    flags: u32,
    result: Seq<char>,
    comp: Seq<char>,
    k: int,
    caret_units: i32,
)
    requires
        flags & 0x8 != 0,
        0 <= k <= comp.len() <= usize::MAX,
        caret_units < 0 || caret_units == utf16::utf16_len(comp.take(k)),
    ensures
        message_events(flags, result, comp, caret_units).last() == (EventModel::Update {
            comp_text: comp,
            caret: if caret_units < 0 {
                comp.len() as usize
            } else {
                k as usize
            },
        }),
{
    utf16::carets_count_characters(comp, k);
}

} // verus!
