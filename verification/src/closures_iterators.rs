//! Closures kept in values, and sequences worked through item by item.
use vstd::prelude::*;

verus! {

/// What to do in today's training.
#[derive(Debug, Clone, Copy, PartialEq, Eq, Structural)]
pub enum Workout {
    /// So many push-ups, then so many sit-ups.
    Exercises { pushups: u32, situps: u32 },
    /// A day off.
    Break,
    /// A run of so many minutes.
    Run { minutes: u32 },
}

/// The training for a day of the given intensity.
///
/// A low intensity, below 25, calls for as many push-ups and sit-ups as the
/// intensity says. Otherwise the day is a day off if `random_number` is 3,
/// and a run of `intensity` minutes if it is not.
pub fn generate_workout(intensity: u32, random_number: u32) -> (workout: Workout)
    ensures
        workout == if intensity < 25 {
            Workout::Exercises { pushups: intensity, situps: intensity }
        } else if random_number == 3 {
            Workout::Break
        } else {
            Workout::Run { minutes: intensity }
        },
{
    if intensity < 25 {
        Workout::Exercises { pushups: intensity, situps: intensity }
    } else {
        if random_number == 3 {
            Workout::Break
        } else {
            Workout::Run { minutes: intensity }
        }
    }
}

/// The training for a day, with the amounts worked out by `expensive`, which
/// is asked anew for every amount.
pub fn generate_workout_closures<F: Fn(u32) -> u32>(
    intensity: u32,
    random_number: u32,
    expensive: F,
) -> (workout: Workout)
    requires
        call_requires(expensive, (intensity,)),
    ensures
        intensity < 25 ==> workout is Exercises && call_ensures(
            expensive,
            (intensity,),
            workout->pushups,
        ) && call_ensures(expensive, (intensity,), workout->situps),
        intensity >= 25 && random_number == 3 ==> workout == Workout::Break,
        intensity >= 25 && random_number != 3 ==> workout is Run && call_ensures(
            expensive,
            (intensity,),
            workout->minutes,
        ),
{
    if intensity < 25 {
        let pushups = expensive(intensity);
        let situps = expensive(intensity);
        Workout::Exercises { pushups, situps }
    } else {
        if random_number == 3 {
            Workout::Break
        } else {
            Workout::Run { minutes: expensive(intensity) }
        }
    }
}

/// A calculation together with its result, once it has been asked for.
pub struct Cache<T: Fn(u32) -> u32> {
    calculation: T,
    value: Option<u32>,
}

impl<T: Fn(u32) -> u32> Cache<T> {
    /// The calculation behind the cache.
    pub closed spec fn calculation(&self) -> T {
        self.calculation
    }

    /// The remembered result, if the calculation has run.
    pub closed spec fn cached(&self) -> Option<u32> {
        self.value
    }

    /// A cache for `calculation` that holds no result yet.
    pub fn new(calculation: T) -> (cache: Cache<T>)
        ensures
            cache.calculation() == calculation,
            cache.cached() is None,
    {
        Cache { calculation, value: None }
    }

    /// The result of the calculation.
    ///
    /// The first call runs the calculation on `arg` and remembers what it
    /// returns. Every later call returns the remembered result, whatever its
    /// argument, without running the calculation again.
    pub fn value(&mut self, arg: u32) -> (v: u32)
        requires
            old(self).cached() is None ==> call_requires(old(self).calculation(), (arg,)),
        ensures
            final(self).calculation() == old(self).calculation(),
            final(self).cached() == Some(v),
            old(self).cached() is Some ==> old(self).cached() == Some(v),
            old(self).cached() is None ==> call_ensures(old(self).calculation(), (arg,), v),
    {
        match self.value {
            Some(v) => v,
            None => {
                let v = (self.calculation)(arg);
                self.value = Some(v);
                v
            },
        }
    }
}

/// The training for a day, with the amount worked out by `expensive` at most
/// once: push-ups and sit-ups share one result.
pub fn generate_workout_cache<F: Fn(u32) -> u32>(
    intensity: u32,
    random_number: u32,
    expensive: F,
) -> (workout: Workout)
    requires
        call_requires(expensive, (intensity,)),
    ensures
        intensity < 25 ==> workout is Exercises && workout->pushups == workout->situps
            && call_ensures(expensive, (intensity,), workout->pushups),
        intensity >= 25 && random_number == 3 ==> workout == Workout::Break,
        intensity >= 25 && random_number != 3 ==> workout is Run && call_ensures(
            expensive,
            (intensity,),
            workout->minutes,
        ),
{
    let mut cache = Cache::new(expensive);
    if intensity < 25 {
        let pushups = cache.value(intensity);
        let situps = cache.value(intensity);
        Workout::Exercises { pushups, situps }
    } else {
        if random_number == 3 {
            Workout::Break
        } else {
            Workout::Run { minutes: cache.value(intensity) }
        }
    }
}

/// A shoe of some size and style.
#[derive(PartialEq, Debug)]
pub struct Shoe {
    pub size: u32,
    pub style: String,
}

/// The shoes of `shoes` that have size `shoe_size`, in their order.
pub open spec fn in_size(shoes: Seq<Shoe>, shoe_size: u32) -> Seq<Shoe> {
    shoes.filter(|shoe: Shoe| shoe.size == shoe_size)
}

/// Picks the shoes of the given size, keeping their order.
pub fn shoes_in_my_size(shoes: &[Shoe], shoe_size: u32) -> (fitting: Vec<&Shoe>)
    ensures
        fitting@.map_values(|shoe: &Shoe| *shoe) == in_size(shoes@, shoe_size),
{
    let mut fitting: Vec<&Shoe> = Vec::new();
    let mut i: usize = 0;
    proof {
        reveal(Seq::filter);
        assert(shoes@.subrange(0, 0) =~= Seq::<Shoe>::empty());
        assert(fitting@.map_values(|shoe: &Shoe| *shoe) =~= Seq::<Shoe>::empty());
    }
    while i < shoes.len()
        invariant
            i <= shoes@.len(),
            fitting@.map_values(|shoe: &Shoe| *shoe) == in_size(
                shoes@.subrange(0, i as int),
                shoe_size,
            ),
        decreases shoes@.len() - i,
    {
        let ghost before = fitting@;
        let shoe = &shoes[i];
        if shoe.size == shoe_size {
            fitting.push(shoe);
        }
        proof {
            reveal(Seq::filter);
            let upto = shoes@.subrange(0, i + 1);
            assert(upto.drop_last() =~= shoes@.subrange(0, i as int));
            assert(upto.last() == shoes@[i as int]);
            if shoe.size == shoe_size {
                assert(fitting@.map_values(|shoe: &Shoe| *shoe) =~= before.map_values(
                    |shoe: &Shoe| *shoe,
                ).push(*shoe));
            }
        }
        i = i + 1;
    }
    assert(shoes@.subrange(0, i as int) =~= shoes@);
    fitting
}

/// Counts from one to five.
pub struct Counter {
    count: u32,
}

impl Counter {
    /// How many times the counter has been asked.
    pub closed spec fn count(&self) -> nat {
        self.count as nat
    }

    /// A counter that has not been asked yet.
    pub fn new() -> (counter: Counter)
        ensures
            counter.count() == 0,
    {
        Counter { count: 0 }
    }

    /// The next number: one, two, three, four, five, and then nothing more.
    /// The counter keeps count of every call and can be asked `u32::MAX`
    /// times.
    pub fn next(&mut self) -> (item: Option<u32>)
        requires
            old(self).count() < u32::MAX,
        ensures
            final(self).count() == old(self).count() + 1,
            item == if final(self).count() < 6 {
                Some(final(self).count() as u32)
            } else {
                None
            },
    {
        self.count += 1;
        if self.count < 6 {
            Some(self.count)
        } else {
            None
        }
    }
}

} // verus!
