use vstd::prelude::*;

verus! {

/// Mathematical view of a [`ScaleConfig`]: the configured root pitch-class, if
/// any, and the interval table as a sequence of semitone offsets.
pub struct ScaleConfigView {
    pub root: Option<u8>,
    pub intervals: Seq<u8>,
}

impl ScaleConfigView {
    /// A configuration with no root or with an empty interval table is in
    /// bypass state: the mapper is the identity function.
    pub open spec fn is_bypass(self) -> bool {
        self.root is None || self.intervals.len() == 0
    }

    /// Any configured root is a pitch-class, i.e. lies in `[0, 12)`.
    pub open spec fn wf(self) -> bool {
        self.root matches Some(r) ==> r < 12
    }

    /// The view of a configuration in bypass state with nothing configured.
    pub open spec fn bypass() -> ScaleConfigView {
        ScaleConfigView { root: None, intervals: Seq::empty() }
    }
}

/// The active root key and scale intervals. A value is immutable once built;
/// reconfiguration replaces the whole value (see [`ConfigStore`]).
pub struct ScaleConfig {
    root: Option<u8>,
    intervals: Vec<u8>,
}

impl View for ScaleConfig {
    type V = ScaleConfigView;

    closed spec fn view(&self) -> ScaleConfigView {
        ScaleConfigView { root: self.root, intervals: self.intervals@ }
    }
}

impl ScaleConfig {
    /// The bypass configuration: no root, no intervals.
    pub fn bypass() -> (c: ScaleConfig)
        ensures
            c@ == ScaleConfigView::bypass(),
    {
        ScaleConfig { root: None, intervals: Vec::new() }
    }

    /// Builds a configuration from a root key and an interval table. The root
    /// key is reduced to its pitch-class; the intervals are taken as given.
    pub fn new(root_key: Option<u8>, intervals: Vec<u8>) -> (c: ScaleConfig)
        ensures
            c@.root == (match root_key {
                Some(r) => Some((r % 12) as u8),
                None => None::<u8>,
            }),
            c@.intervals == intervals@,
            c@.wf(),
    {
        let root: Option<u8> = match root_key {
            Some(r) => Some(r % 12),
            None => None,
        };
        ScaleConfig { root, intervals }
    }

    /// Whether this configuration is in bypass state.
    pub fn is_bypass(&self) -> (r: bool)
        ensures
            r == self@.is_bypass(),
    {
        self.root.is_none() || self.intervals.len() == 0
    }

    /// The configured root pitch-class, if any.
    pub fn root(&self) -> (r: Option<u8>)
        ensures
            r == self@.root,
    {
        self.root
    }

    /// The number of scale degrees in the interval table.
    pub fn interval_count(&self) -> (n: usize)
        ensures
            n == self@.intervals.len(),
    {
        self.intervals.len()
    }

    /// The offset of the given scale degree.
    pub fn interval_at(&self, degree: usize) -> (b: u8)
        requires
            degree < self@.intervals.len(),
        ensures
            b == self@.intervals[degree as int],
    {
        self.intervals[degree]
    }

    /// An independent copy of this configuration.
    pub fn duplicate(&self) -> (c: ScaleConfig)
        ensures
            c@ == self@,
    {
        let mut intervals: Vec<u8> = Vec::new();
        let mut i: usize = 0;
        while i < self.intervals.len()
            invariant
                i <= self.intervals.len(),
                intervals@ == self.intervals@.subrange(0, i as int),
            decreases self.intervals.len() - i,
        {
            intervals.push(self.intervals[i]);
            i = i + 1;
        }
        proof {
            assert(intervals@ == self.intervals@);
        }
        ScaleConfig { root: self.root, intervals }
    }
}

/// Holds exactly one [`ScaleConfig`] at a time. Replacement is wholesale: a
/// reader never observes a mix of a new root with an old interval table.
pub struct ConfigStore {
    current: ScaleConfig,
}

impl View for ConfigStore {
    type V = ScaleConfigView;

    closed spec fn view(&self) -> ScaleConfigView {
        self.current@
    }
}

impl ConfigStore {
    /// A store created at engine startup, in bypass state.
    pub fn new() -> (s: ConfigStore)
        ensures
            s@ == ScaleConfigView::bypass(),
    {
        ConfigStore { current: ScaleConfig::bypass() }
    }

    /// Replaces the held configuration wholesale.
    pub fn replace(&mut self, config: ScaleConfig)
        ensures
            final(self)@ == config@,
    {
        self.current = config;
    }

    /// Resets the store to bypass state.
    pub fn reset(&mut self)
        ensures
            final(self)@ == ScaleConfigView::bypass(),
    {
        self.current = ScaleConfig::bypass();
    }

    /// The held configuration, by reference; the borrow is the reader's
    /// snapshot for one processing cycle.
    pub fn current(&self) -> (c: &ScaleConfig)
        ensures
            c@ == self@,
    {
        &self.current
    }

    /// An owned copy of the held configuration.
    pub fn snapshot(&self) -> (c: ScaleConfig)
        ensures
            c@ == self@,
    {
        self.current.duplicate()
    }
}

} // verus!
