use vstd::prelude::*;

verus! {

/// `s` with `v` appended, keeping only the latest `capacity` values.
pub open spec fn pushed<T>(s: Seq<T>, v: T, capacity: nat) -> Seq<T> {
    let t = s.push(v);
    if t.len() > capacity {
        t.skip(t.len() - capacity)
    } else {
        t
    }
}

/// `s` after each of `vs` is pushed in turn.
pub open spec fn pushed_all<T>(s: Seq<T>, vs: Seq<T>, capacity: nat) -> Seq<T>
    decreases vs.len(),
{
    if vs.len() == 0 {
        s
    } else {
        pushed(pushed_all(s, vs.drop_last(), capacity), vs.last(), capacity)
    }
}

/// A bounded series of samples: once full, each new sample pushes out the oldest.
#[derive(Debug)]
pub struct MetricSeries<T> {
    capacity: usize,
    values: Vec<T>,
}

impl<T> View for MetricSeries<T> {
    type V = Seq<T>;

    closed spec fn view(&self) -> Seq<T> {
        self.values@
    }
}

impl<T> MetricSeries<T> {
    #[verifier::type_invariant]
    spec fn within_capacity(self) -> bool {
        self.values@.len() <= self.capacity
    }

    pub closed spec fn cap(self) -> nat {
        self.capacity as nat
    }

    /// The most samples the series keeps.
    pub fn capacity(&self) -> (r: usize)
        ensures
            r == self.cap(),
    {
        self.capacity
    }

    /// An empty series that keeps at most `capacity` samples.
    pub fn new(capacity: usize) -> (r: Self)
        ensures
            r@ == Seq::<T>::empty(),
            r.cap() == capacity,
    {
        MetricSeries { capacity, values: Vec::with_capacity(capacity) }
    }

    /// Appends a sample, dropping the oldest one when the series is full. A series of
    /// capacity zero cannot take samples.
    pub fn push(&mut self, value: T)
        requires
            old(self).cap() > 0,
        ensures
            final(self).cap() == old(self).cap(),
            final(self)@ == pushed(old(self)@, value, old(self).cap()),
    {
        proof {
            use_type_invariant(&*self);
        }
        let mut values = Vec::new();
        std::mem::swap(&mut values, &mut self.values);
        let ghost before = values@;
        if values.len() == self.capacity {
            values.remove(0);
        }
        values.push(value);
        assert(values@ =~= pushed(before, value, self.capacity as nat));
        self.values = values;
    }

    /// The number of samples, never more than the capacity.
    pub fn len(&self) -> (r: usize)
        ensures
            r == self@.len(),
            r <= self.cap(),
    {
        proof {
            use_type_invariant(self);
        }
        self.values.len()
    }

    /// The samples, oldest first.
    pub fn values(&self) -> (r: &[T])
        ensures
            r@ == self@,
    {
        self.values.as_slice()
    }
}

/// Pushing samples one by one into an empty series leaves the latest `capacity` of
/// them, in order.
pub proof fn lemma_series_keeps_latest<T>(vs: Seq<T>, capacity: nat)
    requires
        capacity > 0,
    ensures
        pushed_all(Seq::<T>::empty(), vs, capacity) == (if vs.len() > capacity {
            vs.skip(vs.len() - capacity)
        } else {
            vs
        }),
    decreases vs.len(),
{
    if vs.len() > 0 {
        let init = vs.drop_last();
        lemma_series_keeps_latest(init, capacity);
        let prev = pushed_all(Seq::<T>::empty(), init, capacity);
        let t = prev.push(vs.last());
        if vs.len() > capacity {
            assert(t.skip(t.len() - capacity) =~= vs.skip(vs.len() - capacity));
        } else {
            assert(t =~= vs);
        }
    }
}

/// The series behind the widgets' charts, one sample per refresh.
#[derive(Debug)]
pub struct WidgetHistory<T> {
    pub cpu_usage: MetricSeries<T>,
    pub memory_usage: MetricSeries<T>,
    pub gpu_memory_usage: MetricSeries<T>,
    pub network_down_mbps: MetricSeries<T>,
    pub network_up_mbps: MetricSeries<T>,
}

impl<T> WidgetHistory<T> {
    pub open spec fn capacities_are(self, capacity: nat) -> bool {
        &&& self.cpu_usage.cap() == capacity
        &&& self.memory_usage.cap() == capacity
        &&& self.gpu_memory_usage.cap() == capacity
        &&& self.network_down_mbps.cap() == capacity
        &&& self.network_up_mbps.cap() == capacity
    }

    /// Five empty series of the same capacity.
    pub fn new(capacity: usize) -> (r: Self)
        ensures
            r.capacities_are(capacity as nat),
            r.cpu_usage@ == Seq::<T>::empty(),
            r.memory_usage@ == Seq::<T>::empty(),
            r.gpu_memory_usage@ == Seq::<T>::empty(),
            r.network_down_mbps@ == Seq::<T>::empty(),
            r.network_up_mbps@ == Seq::<T>::empty(),
    {
        WidgetHistory {
            cpu_usage: MetricSeries::new(capacity),
            memory_usage: MetricSeries::new(capacity),
            gpu_memory_usage: MetricSeries::new(capacity),
            network_down_mbps: MetricSeries::new(capacity),
            network_up_mbps: MetricSeries::new(capacity),
        }
    }

    /// Appends one sample to each series.
    pub fn record(&mut self, cpu: T, memory: T, gpu_memory: T, down: T, up: T)
        requires
            old(self).cpu_usage.cap() > 0,
            old(self).memory_usage.cap() > 0,
            old(self).gpu_memory_usage.cap() > 0,
            old(self).network_down_mbps.cap() > 0,
            old(self).network_up_mbps.cap() > 0,
        ensures
            final(self).cpu_usage.cap() == old(self).cpu_usage.cap(),
            final(self).memory_usage.cap() == old(self).memory_usage.cap(),
            final(self).gpu_memory_usage.cap() == old(self).gpu_memory_usage.cap(),
            final(self).network_down_mbps.cap() == old(self).network_down_mbps.cap(),
            final(self).network_up_mbps.cap() == old(self).network_up_mbps.cap(),
            final(self).cpu_usage@ == pushed(old(self).cpu_usage@, cpu, old(self).cpu_usage.cap()),
            final(self).memory_usage@ == pushed(old(self).memory_usage@, memory, old(self).memory_usage.cap()),
            final(self).gpu_memory_usage@ == pushed(old(self).gpu_memory_usage@, gpu_memory, old(self).gpu_memory_usage.cap()),
            final(self).network_down_mbps@ == pushed(old(self).network_down_mbps@, down, old(self).network_down_mbps.cap()),
            final(self).network_up_mbps@ == pushed(old(self).network_up_mbps@, up, old(self).network_up_mbps.cap()),
    {
        self.cpu_usage.push(cpu);
        self.memory_usage.push(memory);
        self.gpu_memory_usage.push(gpu_memory);
        self.network_down_mbps.push(down);
        self.network_up_mbps.push(up);
    }
}

impl<T> Default for WidgetHistory<T> {
    /// Five minutes of samples at one per second.
    fn default() -> (r: Self)
        ensures
            r.capacities_are(300),
            r.cpu_usage@ == Seq::<T>::empty(),
            r.memory_usage@ == Seq::<T>::empty(),
            r.gpu_memory_usage@ == Seq::<T>::empty(),
            r.network_down_mbps@ == Seq::<T>::empty(),
            r.network_up_mbps@ == Seq::<T>::empty(),
    {
        Self::new(300)
    }
}

} // verus!
