//! Surface materials for the reflectance model: three RGB coefficient
//! triples (ambient, diffuse, specular) in Q16.16 and a whole-number
//! shininess exponent. A catalog of classic presets follows; each
//! coefficient is the conventional value rounded to Q16.16, and each
//! shininess exponent is rounded to the nearest whole number.

use vstd::prelude::*;

verus! {

/// Reflectance coefficients of a surface. `ka`, `kd` and `ks` are RGB
/// triples in Q16.16; `ns` is the specular shininess exponent.
#[derive(Clone, Copy, Debug)]
pub struct Material {
    pub ka: (i64, i64, i64),
    pub kd: (i64, i64, i64),
    pub ks: (i64, i64, i64),
    pub ns: u32,
}

impl Material {
    /// Every coefficient lies in `[0, 1]` in Q16.16 and the exponent is
    /// small enough for the shading arithmetic.
    pub open spec fn wf(self) -> bool {
        &&& 0 <= self.ka.0 <= 65536 && 0 <= self.ka.1 <= 65536 && 0 <= self.ka.2 <= 65536
        &&& 0 <= self.kd.0 <= 65536 && 0 <= self.kd.1 <= 65536 && 0 <= self.kd.2 <= 65536
        &&& 0 <= self.ks.0 <= 65536 && 0 <= self.ks.1 <= 65536 && 0 <= self.ks.2 <= 65536
        &&& self.ns <= 10000
    }

    pub fn emerald() -> (r: Material)
        ensures
            r == (Material { ka: (1409, 11436, 1409), kd: (4960, 40255, 4960), ks: (41484, 47698, 41484), ns: 77 }),
            r.wf(),
    {
        Material { ka: (1409, 11436, 1409), kd: (4960, 40255, 4960), ks: (41484, 47698, 41484), ns: 77 }
    }

    pub fn jade() -> (r: Material)
        ensures
            r == (Material { ka: (8847, 14582, 10322), kd: (35389, 58327, 41288), ks: (20724, 20724, 20724), ns: 13 }),
            r.wf(),
    {
        Material { ka: (8847, 14582, 10322), kd: (35389, 58327, 41288), ks: (20724, 20724, 20724), ns: 13 }
    }

    pub fn obsidian() -> (r: Material)
        ensures
            r == (Material { ka: (3523, 3277, 4342), kd: (11977, 11141, 14762), ks: (21806, 21537, 22704), ns: 38 }),
            r.wf(),
    {
        Material { ka: (3523, 3277, 4342), kd: (11977, 11141, 14762), ks: (21806, 21537, 22704), ns: 38 }
    }

    pub fn pearl() -> (r: Material)
        ensures
            r == (Material { ka: (16384, 13582, 13582), kd: (65536, 54329, 54329), ks: (19441, 19441, 19441), ns: 11 }),
            r.wf(),
    {
        Material { ka: (16384, 13582, 13582), kd: (65536, 54329, 54329), ks: (19441, 19441, 19441), ns: 11 }
    }

    pub fn ruby() -> (r: Material)
        ensures
            r == (Material { ka: (11436, 770, 770), kd: (40255, 2711, 2711), ks: (47698, 41088, 41088), ns: 77 }),
            r.wf(),
    {
        Material { ka: (11436, 770, 770), kd: (40255, 2711, 2711), ks: (47698, 41088, 41088), ns: 77 }
    }

    pub fn turquoise() -> (r: Material)
        ensures
            r == (Material { ka: (6554, 12272, 11436), kd: (25952, 48596, 45287), ks: (19513, 20204, 20099), ns: 13 }),
            r.wf(),
    {
        Material { ka: (6554, 12272, 11436), kd: (25952, 48596, 45287), ks: (19513, 20204, 20099), ns: 13 }
    }

    pub fn brass() -> (r: Material)
        ensures
            r == (Material { ka: (21588, 14649, 1799), kd: (51144, 37266, 7453), ks: (65022, 61681, 52943), ns: 28 }),
            r.wf(),
    {
        Material { ka: (21588, 14649, 1799), kd: (51144, 37266, 7453), ks: (65022, 61681, 52943), ns: 28 }
    }

    pub fn bronze() -> (r: Material)
        ensures
            r == (Material { ka: (13926, 8356, 3539), kd: (46793, 28076, 11891), ks: (25792, 17820, 10926), ns: 26 }),
            r.wf(),
    {
        Material { ka: (13926, 8356, 3539), kd: (46793, 28076, 11891), ks: (25792, 17820, 10926), ns: 26 }
    }

    pub fn chrome() -> (r: Material)
        ensures
            r == (Material { ka: (16384, 16384, 16384), kd: (26214, 26214, 26214), ks: (50764, 50764, 50764), ns: 77 }),
            r.wf(),
    {
        Material { ka: (16384, 16384, 16384), kd: (26214, 26214, 26214), ks: (50764, 50764, 50764), ns: 77 }
    }

    pub fn copper() -> (r: Material)
        ensures
            r == (Material { ka: (12534, 4817, 1475), kd: (46124, 17726, 5426), ks: (16828, 9019, 5637), ns: 13 }),
            r.wf(),
    {
        Material { ka: (12534, 4817, 1475), kd: (46124, 17726, 5426), ks: (16828, 9019, 5637), ns: 13 }
    }

    pub fn gold() -> (r: Material)
        ensures
            r == (Material { ka: (16204, 13074, 4882), kd: (49259, 39746, 14843), ks: (41175, 36425, 23990), ns: 51 }),
            r.wf(),
    {
        Material { ka: (16204, 13074, 4882), kd: (49259, 39746, 14843), ks: (41175, 36425, 23990), ns: 51 }
    }

    pub fn silver() -> (r: Material)
        ensures
            r == (Material { ka: (12599, 12599, 12599), kd: (33262, 33262, 33262), ks: (33310, 33310, 33310), ns: 51 }),
            r.wf(),
    {
        Material { ka: (12599, 12599, 12599), kd: (33262, 33262, 33262), ks: (33310, 33310, 33310), ns: 51 }
    }

    pub fn black_plastic() -> (r: Material)
        ensures
            r == (Material { ka: (0, 0, 0), kd: (655, 655, 655), ks: (32768, 32768, 32768), ns: 32 }),
            r.wf(),
    {
        Material { ka: (0, 0, 0), kd: (655, 655, 655), ks: (32768, 32768, 32768), ns: 32 }
    }

    pub fn cyan_plastic() -> (r: Material)
        ensures
            r == (Material { ka: (0, 6554, 3932), kd: (0, 33410, 33410), ks: (32899, 32899, 32899), ns: 32 }),
            r.wf(),
    {
        Material { ka: (0, 6554, 3932), kd: (0, 33410, 33410), ks: (32899, 32899, 32899), ns: 32 }
    }

    pub fn green_plastic() -> (r: Material)
        ensures
            r == (Material { ka: (0, 0, 0), kd: (6554, 22938, 6554), ks: (29491, 36045, 29491), ns: 32 }),
            r.wf(),
    {
        Material { ka: (0, 0, 0), kd: (6554, 22938, 6554), ks: (29491, 36045, 29491), ns: 32 }
    }

    pub fn red_plastic() -> (r: Material)
        ensures
            r == (Material { ka: (0, 0, 0), kd: (32768, 0, 0), ks: (45875, 39322, 39322), ns: 32 }),
            r.wf(),
    {
        Material { ka: (0, 0, 0), kd: (32768, 0, 0), ks: (45875, 39322, 39322), ns: 32 }
    }

    pub fn white_plastic() -> (r: Material)
        ensures
            r == (Material { ka: (0, 0, 0), kd: (36045, 36045, 36045), ks: (45875, 45875, 45875), ns: 32 }),
            r.wf(),
    {
        Material { ka: (0, 0, 0), kd: (36045, 36045, 36045), ks: (45875, 45875, 45875), ns: 32 }
    }

    pub fn yellow_plastic() -> (r: Material)
        ensures
            r == (Material { ka: (0, 0, 0), kd: (32768, 32768, 0), ks: (39322, 39322, 32768), ns: 32 }),
            r.wf(),
    {
        Material { ka: (0, 0, 0), kd: (32768, 32768, 0), ks: (39322, 39322, 32768), ns: 32 }
    }

    pub fn black_rubber() -> (r: Material)
        ensures
            r == (Material { ka: (1311, 1311, 1311), kd: (655, 655, 655), ks: (26214, 26214, 26214), ns: 10 }),
            r.wf(),
    {
        Material { ka: (1311, 1311, 1311), kd: (655, 655, 655), ks: (26214, 26214, 26214), ns: 10 }
    }

    pub fn cyan_rubber() -> (r: Material)
        ensures
            r == (Material { ka: (0, 3277, 3277), kd: (26214, 32768, 32768), ks: (2621, 45875, 45875), ns: 10 }),
            r.wf(),
    {
        Material { ka: (0, 3277, 3277), kd: (26214, 32768, 32768), ks: (2621, 45875, 45875), ns: 10 }
    }

    pub fn green_rubber() -> (r: Material)
        ensures
            r == (Material { ka: (0, 3277, 0), kd: (26214, 32768, 26214), ks: (2621, 45875, 2621), ns: 10 }),
            r.wf(),
    {
        Material { ka: (0, 3277, 0), kd: (26214, 32768, 26214), ks: (2621, 45875, 2621), ns: 10 }
    }

    pub fn red_rubber() -> (r: Material)
        ensures
            r == (Material { ka: (3277, 0, 0), kd: (32768, 26214, 26214), ks: (45875, 2621, 2621), ns: 10 }),
            r.wf(),
    {
        Material { ka: (3277, 0, 0), kd: (32768, 26214, 26214), ks: (45875, 2621, 2621), ns: 10 }
    }

    pub fn white_rubber() -> (r: Material)
        ensures
            r == (Material { ka: (3277, 3277, 3277), kd: (32768, 32768, 32768), ks: (45875, 45875, 45875), ns: 10 }),
            r.wf(),
    {
        Material { ka: (3277, 3277, 3277), kd: (32768, 32768, 32768), ks: (45875, 45875, 45875), ns: 10 }
    }

    pub fn yellow_rubber() -> (r: Material)
        ensures
            r == (Material { ka: (3277, 3277, 0), kd: (32768, 32768, 26214), ks: (45875, 45875, 2621), ns: 10 }),
            r.wf(),
    {
        Material { ka: (3277, 3277, 0), kd: (32768, 32768, 26214), ks: (45875, 45875, 2621), ns: 10 }
    }

}

} // verus!
