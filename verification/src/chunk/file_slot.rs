//! The place in which a chunk's file is published.

use crate::errors::Error;
use crate::text::debug_error_kind;
use crate::text::debug_str;
use std::io::ErrorKind;
use std::sync::Arc;
use vstd::prelude::*;
use vstd::string::StringExecFns;

verus! {

/// Slot holding a chunk's file handle.
///
/// A chunk's in-memory state can exist before its file does: when a full
/// chunk is closed, the successor chunk is constructed immediately on the
/// caller thread, while its file is created later by the flush worker, after
/// the predecessor chunk has been made durable. The worker fills the slot
/// once the file exists on disk.
pub struct FileSlot<F> {
    /// What the slot holds.
    pub state: SlotState<F>,
}

/// What a slot holds.
pub enum SlotState<F> {
    /// The file has not been created yet.
    Pending,
    /// The file exists and the handle is available.
    Ready(Arc<F>),
    /// The file will never be created; holds the causing error.
    Failed(ErrorKind, String),
}

impl<F> FileSlot<F> {
    /// The slot once `f` has been published in it.
    pub open spec fn filled(self, f: Arc<F>) -> Self {
        FileSlot { state: SlotState::Ready(f) }
    }

    /// The slot once it has been marked as unavailable because of `err`.
    pub open spec fn failed(self, err: Error) -> Self {
        if self.state is Pending {
            FileSlot { state: SlotState::Failed(err.kind, err.message) }
        } else {
            self
        }
    }

    /// The file handle, if it is available.
    pub open spec fn handle(self) -> Option<Arc<F>> {
        match self.state {
            SlotState::Ready(f) => Some(f),
            _ => None,
        }
    }

    /// What those who wait for the handle are told; `None` means to wait
    /// longer.
    pub open spec fn answers(self, r: Option<Result<Arc<F>, Error>>) -> bool {
        match self.state {
            SlotState::Pending => r is None,
            SlotState::Ready(f) => r == Some(Ok::<Arc<F>, Error>(f)),
            SlotState::Failed(kind, message) => {
                &&& r matches Some(Err(e))
                &&& e.kind == kind
                &&& e.message@ == "chunk file was never created: "@ + message@
            },
        }
    }

    /// Creates a slot that already holds a file handle.
    pub fn ready(f: Arc<F>) -> (r: Self)
        ensures
            r.state == SlotState::Ready(f),
    {
        Self::with_state(SlotState::Ready(f))
    }

    /// Creates an empty slot to be filled later via [`FileSlot::set`].
    pub fn pending() -> (r: Self)
        ensures
            r.state == SlotState::<F>::Pending,
    {
        Self::with_state(SlotState::Pending)
    }

    fn with_state(state: SlotState<F>) -> (r: Self)
        ensures
            r.state == state,
    {
        FileSlot { state }
    }

    /// Publishes the file handle. All waiting readers observe it.
    ///
    /// A slot is set at most once.
    pub fn set(&mut self, f: Arc<F>)
        requires
            old(self).state is Pending,
        ensures
            final(self).state == SlotState::Ready(f),
            *final(self) == old(self).filled(f),
    {
        self.state = SlotState::Ready(f);
    }

    /// Marks the slot as permanently unavailable. All waiting readers observe
    /// the error instead of blocking forever.
    ///
    /// Has no effect if the handle was already published.
    pub fn fail(&mut self, err: &Error)
        ensures
            final(self).state == (if old(self).state is Pending {
                SlotState::Failed(err.kind, err.message)
            } else {
                old(self).state
            }),
            *final(self) == old(self).failed(*err),
    {
        if let SlotState::Pending = self.state {
            self.state = SlotState::Failed(err.kind, err.message.clone());
        }
    }

    /// Returns the file handle if it is already available.
    pub fn get(&self) -> (r: Option<Arc<F>>)
        ensures
            r == (match self.state {
                SlotState::Ready(f) => Some(f),
                _ => None,
            }),
            r == self.handle(),
    {
        match &self.state {
            SlotState::Ready(f) => Some(f.clone()),
            _ => None,
        }
    }

    /// Returns the file handle once it is available, or the error that keeps
    /// it from ever being so; `None` means to wait longer.
    ///
    /// The wait is bounded: the flush worker creates the file after
    /// processing a finite prefix of its FIFO queue. If the worker fails
    /// before creating the file, the slot is poisoned and this returns the
    /// worker's error.
    pub fn wait(&self) -> (r: Option<Result<Arc<F>, Error>>)
        ensures
            match self.state {
                SlotState::Pending => r is None,
                SlotState::Ready(f) => r == Some(Ok::<Arc<F>, Error>(f)),
                SlotState::Failed(kind, message) => {
                    &&& r matches Some(Err(e))
                    &&& e.kind == kind
                    &&& e.message@ == "chunk file was never created: "@ + message@
                },
            },
            self.answers(r),
    {
        match &self.state {
            SlotState::Pending => None,
            SlotState::Ready(f) => Some(Ok(f.clone())),
            SlotState::Failed(kind, message) => {
                let mut text = String::from_str("chunk file was never created: ");
                text.append(message.as_str());
                Some(Err(Error { kind: *kind, message: text }))
            },
        }
    }

    /// The slot as shown in debugging output, with the file rendered as
    /// `file`.
    pub open spec fn debug_text(self, file: Seq<char>) -> Seq<char> {
        match self.state {
            SlotState::Pending => "FileSlot(Pending)"@,
            SlotState::Ready(_) => "FileSlot("@ + file + ")"@,
            SlotState::Failed(kind, message) => "FileSlot { failed_kind: "@
                + crate::text::error_kind_text(kind) + ", failed_error: "@
                + crate::text::debug_text(message@) + " }"@,
        }
    }

    /// Renders the slot for debugging output. `file` is the rendering of the
    /// file, if there is one.
    pub fn debug_string(&self, file: &str) -> (r: String)
        ensures
            r@ == self.debug_text(file@),
    {
        match &self.state {
            SlotState::Pending => String::from_str("FileSlot(Pending)"),
            SlotState::Ready(_) => {
                let mut s = String::from_str("FileSlot(");
                s.append(file);
                s.append(")");
                s
            },
            SlotState::Failed(kind, message) => {
                let mut s = String::from_str("FileSlot { failed_kind: ");
                s.append(debug_error_kind(*kind).as_str());
                s.append(", failed_error: ");
                s.append(debug_str(message.as_str()).as_str());
                s.append(" }");
                s
            },
        }
    }
}

/// Readers of a slot see the file that was published in it, or the error for
/// which it will never be, and wait as long as it is neither. What is settled
/// first stays: marking a published slot as unavailable has no effect, nor has
/// a second error.
pub proof fn law_readers_see_what_was_settled_first<F>(
    slot: FileSlot<F>,
    f: Arc<F>,
    first: Error,
    second: Error,
    r: Option<Result<Arc<F>, Error>>,
)
    requires
        slot.state is Pending,
    ensures
        slot.handle() is None,
        slot.answers(r) <==> r is None,
        slot.filled(f).handle() == Some(f),
        slot.filled(f).answers(r) <==> r == Some(Ok::<Arc<F>, Error>(f)),
        slot.filled(f).failed(first) == slot.filled(f),
        slot.failed(first).handle() is None,
        slot.failed(first).answers(r) ==> {
            &&& r matches Some(Err(e))
            &&& e.kind == first.kind
            &&& e.message@ == "chunk file was never created: "@ + first.message@
        },
        slot.failed(first).failed(second) == slot.failed(first),
{
}

} // verus!
