//! Formatter instances and their initialization.

use vstd::prelude::*;
use crate::output::CustomOutPut;

verus! {

/// The state of one formatter instance: the output it is bound to, if any.
///
/// An instance starts unbound. Initialization binds it to exactly one output,
/// and only another initialization replaces that binding.
pub struct Lwprintf<T> {
    out: Option<T>,
}

impl<T: CustomOutPut> Lwprintf<T> {
    /// The bound output, or `None` while the instance is uninitialized.
    pub closed spec fn bound(&self) -> Option<T> {
        self.out
    }

    /// Whether an output has been installed.
    pub open spec fn is_initialized(&self) -> bool {
        self.bound() is Some
    }

    /// Every character code the bound output has accepted so far; empty while
    /// the instance is uninitialized.
    pub open spec fn received(&self) -> Seq<i32> {
        match self.bound() {
            Some(out) => out.received(),
            None => Seq::empty(),
        }
    }

    /// The bound output, or `None` while the instance is uninitialized.
    pub fn output(&self) -> (out: Option<&T>)
        ensures
            out == match self.bound() {
                Some(o) => Some(&o),
                None => None,
            },
    {
        self.out.as_ref()
    }
}

/// A formatter instance that owns its state and is typed by its output.
pub struct LwprintfObj<T: CustomOutPut> {
    obj: Lwprintf<T>,
}

impl<T: CustomOutPut> View for LwprintfObj<T> {
    type V = Lwprintf<T>;

    closed spec fn view(&self) -> Lwprintf<T> {
        self.obj
    }
}

impl<T: CustomOutPut> LwprintfObj<T> {
    /// Creates an instance with no output installed.
    pub fn new() -> (lwobj: Self)
        ensures
            lwobj@.bound() == None::<T>,
    {
        let obj = Lwprintf { out: None };
        Self { obj }
    }

    /// Lends the instance state, so that it can be handed to the printing
    /// functions. What the borrower leaves there is the state afterwards.
    pub fn as_mut_ptr(&mut self) -> (obj: &mut Lwprintf<T>)
        ensures
            *obj == old(self)@,
            final(self)@ == *final(obj),
    {
        &mut self.obj
    }
}

impl<T: CustomOutPut> Default for LwprintfObj<T> {
    fn default() -> (lwobj: Self)
        ensures
            lwobj@.bound() == None::<T>,
    {
        Self::new()
    }
}

/// Hands one character code to the output that `lwobj` is bound to and
/// returns what that output answers, which is the code itself.
pub fn out_fn<T: CustomOutPut>(ch: i32, lwobj: &mut Lwprintf<T>) -> (echo: i32)
    requires
        old(lwobj).is_initialized(),
    ensures
        echo == ch,
        final(lwobj).is_initialized(),
        final(lwobj).received() == old(lwobj).received().push(ch),
{
    match &mut lwobj.out {
        Some(out) => out.putch(ch),
        None => unreached(),
    }
}

/// Installs `out` as the output of `lwobj`, replacing any earlier binding.
/// Every output is accepted, which the returned `1` reports.
pub fn lwprintf_init_ex<T: CustomOutPut>(lwobj: &mut LwprintfObj<T>, out: T) -> (accepted: u8)
    ensures
        accepted == 1,
        final(lwobj)@.bound() == Some(out),
{
    lwobj.obj.out = Some(out);
    1
}

/// Initializes the default instance: the one that callers share who name no
/// instance of their own. `default` is the place where its owner keeps it for
/// the process, empty until the first initialization.
///
/// Creates the instance if there is none yet and installs `out` as its
/// output, replacing any earlier binding. The returned `1` reports that the
/// output was accepted.
pub fn lwprintf_init<T: CustomOutPut>(default: &mut Option<LwprintfObj<T>>, out: T) -> (accepted: u8)
    ensures
        accepted == 1,
        match *final(default) {
            Some(lwobj) => lwobj@.bound() == Some(out),
            None => false,
        },
{
    let mut lwobj = match default.take() {
        Some(lwobj) => lwobj,
        None => LwprintfObj::new(),
    };
    let accepted = lwprintf_init_ex(&mut lwobj, out);
    *default = Some(lwobj);
    accepted
}

} // verus!
