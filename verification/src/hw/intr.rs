//! The INTR pin of the processor: a count of outstanding interrupt requests.
use vstd::prelude::*;

verus! {

/// The processor's INTR pin. It is raised for as long as at least one request is outstanding.
#[derive(Debug)]
pub struct Intr {
    count: u32,
    pointer_is_valid: bool,
}

impl Intr {
    /// The number of outstanding requests.
    pub closed spec fn count(&self) -> int {
        self.count as int
    }

    /// Whether requests still reach the pin; false once the pin has been closed.
    pub closed spec fn is_open(&self) -> bool {
        self.pointer_is_valid
    }

    pub fn new() -> (r: Self)
        ensures
            r.count() == 0,
            r.is_open(),
    {
        Self { count: 0, pointer_is_valid: true }
    }

    /// Returns true if any request is outstanding.
    pub fn any_pending(&self) -> (r: bool)
        ensures
            r == (self.count() > 0),
    {
        self.count > 0
    }

    /// Returns a handle through which requests are made.
    pub fn handle(&self) -> (r: IntrHandle)
        ensures
            r == (IntrHandle {  }),
            r.any_pending_spec(self) == (self.is_open() && self.count() > 0),
    {
        IntrHandle {  }
    }

    /// Detaches the pin: requests made or released from here on leave the count alone.
    pub fn close(&mut self)
        ensures
            final(self).count() == old(self).count(),
            !final(self).is_open(),
    {
        self.pointer_is_valid = false;
    }

    pub proof fn count_bounds(&self)
        ensures
            0 <= self.count() <= u32::MAX,
    {
    }
}

impl Default for Intr {
    fn default() -> (r: Self)
        ensures
            r.count() == 0,
            r.is_open(),
    {
        Self::new()
    }
}

/// Hands out handles for a pin that is constructed later on.
#[derive(Debug)]
pub struct EarlyIntr {}

impl EarlyIntr {
    pub fn new() -> (r: Self)
        ensures
            r == (EarlyIntr {  }),
    {
        Self {  }
    }

    pub fn handle(&self) -> (r: IntrHandle)
        ensures
            r == (IntrHandle {  }),
    {
        IntrHandle {  }
    }

    /// Builds the pin. No request is outstanding at that point.
    pub fn build(&self) -> (r: Intr)
        ensures
            r.count() == 0,
            r.is_open(),
    {
        Intr::new()
    }
}

/// The right to raise requests on an [`Intr`].
#[derive(Clone, Copy, Debug)]
pub struct IntrHandle {}

impl IntrHandle {
    pub open spec fn any_pending_spec(&self, intr: &Intr) -> bool {
        intr.is_open() && intr.count() > 0
    }

    /// Adds one request, which stays outstanding until it is released.
    pub fn request(&self, intr: &mut Intr) -> (r: PendingRequest)
        requires
            old(intr).is_open() ==> old(intr).count() < u32::MAX,
        ensures
            request_added(old(intr), final(intr)),
    {
        if intr.pointer_is_valid {
            intr.count = intr.count + 1;
        }
        PendingRequest {  }
    }

    pub fn any_pending(&self, intr: &Intr) -> (r: bool)
        ensures
            r == self.any_pending_spec(intr),
    {
        intr.pointer_is_valid && intr.count > 0
    }
}

/// One outstanding request.
#[derive(Debug)]
pub struct PendingRequest {}

impl PendingRequest {
    /// Takes the request back.
    pub fn release(self, intr: &mut Intr)
        requires
            old(intr).is_open() ==> old(intr).count() > 0,
        ensures
            request_taken_back(old(intr), final(intr)),
    {
        if intr.pointer_is_valid {
            intr.count = intr.count - 1;
        }
    }
}

/// One more request is outstanding, unless the pin is closed.
pub open spec fn request_added(before: &Intr, after: &Intr) -> bool {
    &&& after.is_open() == before.is_open()
    &&& after.count() == before.count() + (if before.is_open() {
        1int
    } else {
        0int
    })
}

/// One request less is outstanding, unless the pin is closed.
pub open spec fn request_taken_back(before: &Intr, after: &Intr) -> bool {
    &&& after.is_open() == before.is_open()
    &&& after.count() == before.count() - (if before.is_open() {
        1int
    } else {
        0int
    })
}

/// All handles act on one count: whichever of them made the request, every other one and the pin
/// itself see it, for as long as the pin is open.
pub proof fn handles_share_one_count(
    requester: IntrHandle,
    observer: IntrHandle,
    before: &Intr,
    after: &Intr,
)
    requires
        before.is_open(),
        request_added(before, after),
    ensures
        requester == observer,
        after.count() > 0,
        observer.any_pending_spec(after),
        requester.any_pending_spec(before) == observer.any_pending_spec(before),
{
    before.count_bounds();
}

/// Taking a request back leaves the pin as it was before the request was made.
pub proof fn release_undoes_request(before: &Intr, requested: &Intr, released: &Intr)
    requires
        request_added(before, requested),
        request_taken_back(requested, released),
    ensures
        released.count() == before.count(),
        released.is_open() == before.is_open(),
{
}

/// A closed pin counts no more: neither a request nor its release changes anything, and no handle
/// sees a request.
pub proof fn closed_pin_keeps_its_count(handle: IntrHandle, before: &Intr, after: &Intr)
    requires
        !before.is_open(),
        request_added(before, after) || request_taken_back(before, after),
    ensures
        after.count() == before.count(),
        !after.is_open(),
        !handle.any_pending_spec(after),
{
}

} // verus!
