use hpd::single::{quotient_lt, scale_down, scale_nearest, Single};

fn single(value: f32) -> Single {
    Single::from_bits(value.to_bits())
}

/// A stream of words that look like chance.
struct Words(u64);

impl Words {
    fn next(&mut self) -> u32 {
        self.0 = self.0.wrapping_mul(6364136223846793005).wrapping_add(1442695040888963407);
        (self.0 >> 33) as u32 ^ (self.0 >> 11) as u32
    }

    fn count(&mut self) -> u32 {
        let word = self.next();
        match word % 4 {
            0 => word,
            1 => word % 100_000,
            2 => word >> (word % 31),
            _ => word % 64,
        }
    }

    fn number(&mut self) -> f32 {
        let word = self.next();
        match word % 4 {
            0 => f32::from_bits(word),
            1 => (word % 1_000) as f32 / 500.0,
            2 => f32::from_bits(0x3f80_0000 ^ (word & 0x00ff_ffff)),
            _ => (word >> 8) as f32 * 0.000_1,
        }
    }
}

const SPECIAL: [f32; 14] = [
    0.0,
    -0.0,
    1.0,
    -1.0,
    0.5,
    1.15,
    1.25,
    0.33,
    0.67,
    f32::MIN_POSITIVE,
    f32::MAX,
    f32::INFINITY,
    f32::NEG_INFINITY,
    f32::NAN,
];

const COUNTS: [u32; 9] = [0, 1, 2, 3, 15_000, 16_777_216, 16_777_217, 4_294_967_040, u32::MAX];

#[test]
fn products_are_those_of_the_processor() {
    let mut words = Words(7);
    for x in COUNTS {
        for f in SPECIAL {
            assert_eq!(scale_down(x, single(f)), (x as f32 * f) as u32, "{x} * {f}");
            assert_eq!(scale_nearest(x, single(f)), (x as f32 * f).round() as u32, "{x} * {f}");
        }
    }
    for _ in 0..200_000 {
        let x = words.count();
        let f = words.number();
        assert_eq!(scale_down(x, single(f)), (x as f32 * f) as u32, "{x} * {f:e}");
        assert_eq!(scale_nearest(x, single(f)), (x as f32 * f).round() as u32, "{x} * {f:e}");
    }
}

#[test]
fn quotients_are_those_of_the_processor() {
    let mut words = Words(11);
    for a in COUNTS {
        for b in COUNTS {
            for t in SPECIAL {
                if b > 0 {
                    assert_eq!(quotient_lt(a, b, single(t)), (a as f32 / b as f32) < t);
                }
            }
        }
    }
    for _ in 0..200_000 {
        let a = words.count();
        let b = words.count().max(1);
        let t = match words.next() % 3 {
            0 => a as f32 / b as f32,
            1 => f32::from_bits((a as f32 / b as f32).to_bits().wrapping_add(1)),
            _ => words.number(),
        };
        assert_eq!(
            quotient_lt(a, b, single(t)),
            (a as f32 / b as f32) < t,
            "{a} / {b} < {t:e}"
        );
    }
}

#[test]
fn numbers_are_ordered_as_the_processor_orders_them() {
    let mut words = Words(13);
    let mut pairs: Vec<(f32, f32)> = Vec::new();
    for a in SPECIAL {
        for b in SPECIAL {
            pairs.push((a, b));
        }
    }
    for _ in 0..100_000 {
        pairs.push((words.number(), words.number()));
    }
    for (a, b) in pairs {
        assert_eq!(single(a).lt(single(b)), a < b);
        assert_eq!(single(a) == single(b), a == b);
        assert_eq!(single(a).is_finite(), a.is_finite());
        assert_eq!(single(a).to_bits(), a.to_bits());
    }
}
