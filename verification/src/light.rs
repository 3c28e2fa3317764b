//! The light data model and state-change transactions.
//!
//! A [`Light`] is the decoded snapshot of one light from an enumeration
//! response; it is never mutated in place — the bridge stays the source
//! of truth.  A [`LightTransaction`] carries a validated partial update
//! (power, color, dimming) for one light; out-of-range color or
//! brightness values are silently dropped from the update rather than
//! rejected.

use vstd::prelude::*;

use crate::bridge::{HueBridge, HueError};
use crate::color::{spec_rgb_to_xy, Color, ColorXY};
use crate::fixed::SCALE;
use crate::json::{spec_get, JsonValue};
use crate::render::{dec_string, spec_dec};

verus! {

/// Snapshot of one light's server-reported state.  Numeric fields are
/// fixed point (`SCALE` stands for 1.0).
#[derive(Debug)]
pub struct Light {
    pub id: String,
    pub name: String,
    pub is_on: bool,
    pub brightness: i64,
    pub min_brightness: i64,
    pub color: ColorXY,
}

/// A pending partial update for one light.  A field that is `None` is
/// left out of the request; a transaction with no fields is valid and
/// changes nothing.
#[derive(Debug)]
pub struct LightTransaction {
    pub light_id: String,
    pub on: Option<bool>,
    pub color: Option<(i64, i64)>,
    pub dimming: Option<i64>,
}

/// The string carried by a JSON value, if it is a string.
pub open spec fn spec_str(o: Option<JsonValue>) -> Option<String> {
    match o {
        Some(JsonValue::Str(s)) => Some(s),
        _ => None,
    }
}

/// The number carried by a JSON value, if it is a number.
pub open spec fn spec_num(o: Option<JsonValue>) -> Option<i64> {
    match o {
        Some(JsonValue::Num(n)) => Some(n),
        _ => None,
    }
}

/// The boolean carried by a JSON value, if it is a boolean.
pub open spec fn spec_bool(o: Option<JsonValue>) -> Option<bool> {
    match o {
        Some(JsonValue::Bool(b)) => Some(b),
        _ => None,
    }
}

/// Lookup within an optional object.
pub open spec fn opt_get(o: Option<JsonValue>, key: Seq<char>) -> Option<JsonValue> {
    match o {
        Some(w) => spec_get(w, key),
        None => None,
    }
}

/// Decode one enumeration entry.  All of `id`, `metadata.name`,
/// `on.on`, `dimming.brightness`, `dimming.min_dim_level`,
/// `color.xy.x` and `color.xy.y` must be present with the right types;
/// otherwise the entry decodes to nothing (and is skipped).
pub open spec fn spec_decode_light(v: JsonValue) -> Option<Light> {
    match (
        spec_str(spec_get(v, "id"@)),
        spec_str(opt_get(spec_get(v, "metadata"@), "name"@)),
        spec_bool(opt_get(spec_get(v, "on"@), "on"@)),
        spec_num(opt_get(spec_get(v, "dimming"@), "brightness"@)),
        spec_num(opt_get(spec_get(v, "dimming"@), "min_dim_level"@)),
        spec_num(opt_get(opt_get(spec_get(v, "color"@), "xy"@), "x"@)),
        spec_num(opt_get(opt_get(spec_get(v, "color"@), "xy"@), "y"@)),
    ) {
        (Some(id), Some(name), Some(is_on), Some(bri), Some(minb), Some(cx), Some(cy)) => Some(
            Light {
                id,
                name,
                is_on,
                brightness: bri,
                min_brightness: minb,
                color: ColorXY { x: cx, y: cy, bri },
            },
        ),
        _ => None,
    }
}

/// The lights decoded from a sequence of enumeration entries, in
/// order, skipping entries that do not decode.
pub open spec fn spec_lights_of(entries: Seq<JsonValue>) -> Seq<Light>
    decreases entries.len(),
{
    if entries.len() == 0 {
        Seq::empty()
    } else {
        spec_lights_of(entries.drop_last()) + (match spec_decode_light(entries.last()) {
            Some(l) => seq![l],
            None => Seq::empty(),
        })
    }
}

/// The entries of an enumeration response: the `data` member, when it
/// is an array.
pub open spec fn spec_lights_data(v: JsonValue) -> Option<Seq<JsonValue>> {
    match spec_get(v, "data"@) {
        Some(JsonValue::Arr(a)) => Some(a@),
        _ => None,
    }
}

/// The color pair a transaction carries for a requested color: the xy
/// coordinates (RGB requests are converted first), kept only when both
/// lie in `[0, 1]`.
pub open spec fn spec_color_field(color: Option<Color>) -> Option<(int, int)> {
    match color {
        None => None,
        Some(Color::XY(xy)) => {
            if 0 <= xy.x <= SCALE && 0 <= xy.y <= SCALE {
                Some((xy.x as int, xy.y as int))
            } else {
                None
            }
        },
        Some(Color::RGB(rgb)) => {
            let conv = spec_rgb_to_xy(rgb.r as int, rgb.g as int, rgb.b as int);
            if 0 <= conv.0 <= SCALE && 0 <= conv.1 <= SCALE {
                Some((conv.0, conv.1))
            } else {
                None
            }
        },
    }
}

/// The brightness a transaction carries for a requested brightness:
/// kept only when it lies in `[min_brightness, 100]`, the lower bound
/// defaulting to 2.
pub open spec fn spec_dimming_field(brightness: Option<i64>, min_brightness: Option<i64>) -> Option<
    int,
> {
    match brightness {
        None => None,
        Some(b) => {
            let lo: int = match min_brightness {
                Some(m) => m as int,
                None => 20_000_000,
            };
            if lo <= b as int && b as int <= 1_000_000_000 {
                Some(b as int)
            } else {
                None
            }
        },
    }
}

impl Light {
    /// Decode one entry of an enumeration response.
    pub fn decode(v: &JsonValue) -> (res: Option<Light>)
        ensures
            res == spec_decode_light(*v),
    {
        let id: String = match v.get("id") {
            Some(JsonValue::Str(s)) => s.clone(),
            _ => {
                return None;
            },
        };
        let name: String = match v.get("metadata") {
            Some(m) => match m.get("name") {
                Some(JsonValue::Str(s)) => s.clone(),
                _ => {
                    return None;
                },
            },
            _ => {
                return None;
            },
        };
        let is_on: bool = match v.get("on") {
            Some(o) => match o.get("on") {
                Some(JsonValue::Bool(b)) => *b,
                _ => {
                    return None;
                },
            },
            _ => {
                return None;
            },
        };
        let (brightness, min_brightness): (i64, i64) = match v.get("dimming") {
            Some(d) => {
                let bri: i64 = match d.get("brightness") {
                    Some(JsonValue::Num(n)) => *n,
                    _ => {
                        return None;
                    },
                };
                let minb: i64 = match d.get("min_dim_level") {
                    Some(JsonValue::Num(n)) => *n,
                    _ => {
                        return None;
                    },
                };
                (bri, minb)
            },
            _ => {
                return None;
            },
        };
        let (cx, cy): (i64, i64) = match v.get("color") {
            Some(c) => match c.get("xy") {
                Some(w) => {
                    let x: i64 = match w.get("x") {
                        Some(JsonValue::Num(n)) => *n,
                        _ => {
                            return None;
                        },
                    };
                    let y: i64 = match w.get("y") {
                        Some(JsonValue::Num(n)) => *n,
                        _ => {
                            return None;
                        },
                    };
                    (x, y)
                },
                _ => {
                    return None;
                },
            },
            _ => {
                return None;
            },
        };
        Some(
            Light {
                id,
                name,
                is_on,
                brightness,
                min_brightness,
                color: ColorXY { x: cx, y: cy, bri: brightness },
            },
        )
    }

    /// Decode an enumeration response: its `data` array, entry by
    /// entry, skipping entries that do not decode.  Fails only when the
    /// body is not an object (`Parsing`) or has no `data` array
    /// (`InvalidData`).
    pub fn list_lights(v: &JsonValue) -> (res: Result<Vec<Light>, HueError>)
        ensures
            match res {
                Ok(l) => {
                    &&& spec_lights_data(*v) matches Some(entries) && l@ == spec_lights_of(entries)
                },
                Err(e) => {
                    &&& spec_lights_data(*v) is None
                    &&& e is Parsing <==> !(*v is Obj)
                    &&& (e matches HueError::InvalidData { .. }) <==> *v is Obj
                },
            },
    {
        if let JsonValue::Obj(_members) = v {
            match v.get("data") {
                Some(JsonValue::Arr(entries)) => {
                    let n: usize = entries.len();
                    let mut lights: Vec<Light> = Vec::new();
                    let mut i: usize = 0;
                    proof {
                        assert(entries@.take(0) =~= Seq::<JsonValue>::empty());
                    }
                    while i < n
                        invariant
                            i <= n,
                            n == entries@.len(),
                            lights@ == spec_lights_of(entries@.take(i as int)),
                        decreases n - i,
                    {
                        match Light::decode(&entries[i]) {
                            Some(l) => lights.push(l),
                            None => {},
                        }
                        proof {
                            assert(entries@.take(i as int + 1).drop_last() =~= entries@.take(
                                i as int,
                            ));
                            assert(entries@.take(i as int + 1).last() == entries@[i as int]);
                        }
                        i += 1;
                    }
                    proof {
                        assert(entries@.take(n as int) =~= entries@);
                    }
                    Ok(lights)
                },
                _ => Err(
                    HueError::InvalidData {
                        msg: String::from_str("couldn't parse list_lights data json object"),
                    },
                ),
            }
        } else {
            Err(HueError::Parsing)
        }
    }

    /// A transaction that flips this light's power state.
    pub fn toggle_power(&self) -> (t: LightTransaction)
        ensures
            t.light_id == self.id,
            t.on == Some(!self.is_on),
            t.color is None,
            t.dimming is None,
    {
        Light::toggle_power_id(self.id.clone(), !self.is_on)
    }

    /// A transaction that sets the power state of the light with the
    /// given id.
    pub fn toggle_power_id(id: String, is_on: bool) -> (t: LightTransaction)
        ensures
            t.light_id == id,
            t.on == Some(is_on),
            t.color is None,
            t.dimming is None,
    {
        LightTransaction { light_id: id, on: Some(is_on), color: None, dimming: None }
    }

    /// A transaction that changes this light's color and/or brightness,
    /// validated against this light's own minimum brightness.
    pub fn change_color(&self, color: Option<Color>, brightness: Option<i64>) -> (t:
        LightTransaction)
        requires
            color matches Some(Color::RGB(rgb)) ==> 0 <= rgb.r <= SCALE && 0 <= rgb.g <= SCALE && 0
                <= rgb.b <= SCALE,
        ensures
            t.light_id == self.id,
            t.on is None,
            match t.color {
                Some(p) => spec_color_field(color) == Some((p.0 as int, p.1 as int)),
                None => spec_color_field(color) is None,
            },
            match t.dimming {
                Some(d) => spec_dimming_field(brightness, Some(self.min_brightness)) == Some(
                    d as int,
                ),
                None => spec_dimming_field(brightness, Some(self.min_brightness)) is None,
            },
    {
        Light::change_color_id(self.id.clone(), color, brightness, Some(self.min_brightness))
    }

    /// A transaction that changes color and/or brightness for the light
    /// with the given id.  A requested color is normalized to xy (RGB
    /// is converted) and kept only if both coordinates lie in `[0, 1]`;
    /// a requested brightness is kept only if it lies between the
    /// minimum (2.0 when not given) and 100.  Values that fall outside
    /// are dropped silently, not reported as errors.
    pub fn change_color_id(
        light_id: String,
        color: Option<Color>,
        brightness: Option<i64>,
        min_brightness: Option<i64>,
    ) -> (t: LightTransaction)
        requires
            color matches Some(Color::RGB(rgb)) ==> 0 <= rgb.r <= SCALE && 0 <= rgb.g <= SCALE && 0
                <= rgb.b <= SCALE,
        ensures
            t.light_id == light_id,
            t.on is None,
            match t.color {
                Some(p) => spec_color_field(color) == Some((p.0 as int, p.1 as int)),
                None => spec_color_field(color) is None,
            },
            match t.dimming {
                Some(d) => spec_dimming_field(brightness, min_brightness) == Some(d as int),
                None => spec_dimming_field(brightness, min_brightness) is None,
            },
    {
        let color_pair: Option<(i64, i64)> = match color {
            None => None,
            Some(c) => {
                let xy: ColorXY = match c {
                    Color::XY(xy) => xy,
                    Color::RGB(rgb) => rgb.as_xy(),
                };
                if 0 <= xy.x && xy.x <= SCALE && 0 <= xy.y && xy.y <= SCALE {
                    Some((xy.x, xy.y))
                } else {
                    None
                }
            },
        };
        let dimming: Option<i64> = match brightness {
            None => None,
            Some(b) => {
                let lo: i64 = match min_brightness {
                    Some(m) => m,
                    None => 20_000_000,
                };
                if lo <= b && b <= 1_000_000_000 {
                    Some(b)
                } else {
                    None
                }
            },
        };
        LightTransaction { light_id, on: None, color: color_pair, dimming }
    }
}

/// The `color` member of a transaction body.
pub open spec fn spec_color_part(p: (i64, i64)) -> Seq<char> {
    "\"color\":{\"xy\":{\"x\":"@ + spec_dec(p.0 as int) + ",\"y\":"@ + spec_dec(p.1 as int)
        + "}}"@
}

/// The `dimming` member of a transaction body.
pub open spec fn spec_dimming_part(d: i64) -> Seq<char> {
    "\"dimming\":{\"brightness\":"@ + spec_dec(d as int) + "}"@
}

/// The `on` member of a transaction body.
pub open spec fn spec_on_part(b: bool) -> Seq<char> {
    "\"on\":{\"on\":"@ + (if b {
        "true"@
    } else {
        "false"@
    }) + "}"@
}

/// The JSON text of a transaction body: the present members in the
/// order color, dimming, on, comma-separated, inside braces.
pub open spec fn spec_body(t: LightTransaction) -> Seq<char> {
    "{"@ + (match t.color {
        Some(p) => spec_color_part(p),
        None => Seq::empty(),
    }) + (if t.color is Some && t.dimming is Some {
        seq![',']
    } else {
        Seq::empty()
    }) + (match t.dimming {
        Some(d) => spec_dimming_part(d),
        None => Seq::empty(),
    }) + (if (t.color is Some || t.dimming is Some) && t.on is Some {
        seq![',']
    } else {
        Seq::empty()
    }) + (match t.on {
        Some(b) => spec_on_part(b),
        None => Seq::empty(),
    }) + "}"@
}

impl LightTransaction {
    /// The JSON body this transaction puts on the wire.
    #[verifier::rlimit(100)]
    pub fn body_string(&self) -> (s: String)
        requires
            self.color matches Some(p) ==> -1_000_000_000_000_000_000 <= p.0
                <= 1_000_000_000_000_000_000 && -1_000_000_000_000_000_000 <= p.1
                <= 1_000_000_000_000_000_000,
            self.dimming matches Some(d) ==> -1_000_000_000_000_000_000 <= d
                <= 1_000_000_000_000_000_000,
        ensures
            s@ == spec_body(*self),
    {
        let mut s: String = String::from_str("{");
        let mut wrote: bool = false;
        if let Some(p) = self.color {
            s.append("\"color\":{\"xy\":{\"x\":");
            let xs: String = dec_string(p.0);
            s.append(xs.as_str());
            s.append(",\"y\":");
            let ys: String = dec_string(p.1);
            s.append(ys.as_str());
            s.append("}}");
            wrote = true;
        }
        if let Some(d) = self.dimming {
            if wrote {
                s.append(",");
            }
            s.append("\"dimming\":{\"brightness\":");
            let ds: String = dec_string(d);
            s.append(ds.as_str());
            s.append("}");
            wrote = true;
        }
        if let Some(b) = self.on {
            if wrote {
                s.append(",");
            }
            s.append("\"on\":{\"on\":");
            if b {
                s.append("true");
            } else {
                s.append("false");
            }
            s.append("}");
        }
        s.append("}");
        proof {
            reveal_strlit(",");
            assert(","@ =~= seq![',']);
            assert(s@ =~= spec_body(*self));
        }
        s
    }

    /// The request that applies this transaction on the given bridge:
    /// the light's resource URL and the JSON body.  The transport layer
    /// sends it as a PUT carrying the authentication header; any
    /// well-formed JSON response counts as success.
    pub fn on(&self, bridge: &HueBridge) -> (req: (String, String))
        requires
            self.color matches Some(p) ==> -1_000_000_000_000_000_000 <= p.0
                <= 1_000_000_000_000_000_000 && -1_000_000_000_000_000_000 <= p.1
                <= 1_000_000_000_000_000_000,
            self.dimming matches Some(d) ==> -1_000_000_000_000_000_000 <= d
                <= 1_000_000_000_000_000_000,
        ensures
            req.0@ == "https://"@ + bridge.bridge_ip@ + "/clip/v2/resource/light/"@
                + self.light_id@,
            req.1@ == spec_body(*self),
    {
        (self.url(bridge), self.body_string())
    }

    /// The resource URL this transaction is sent to on the given bridge.
    pub fn url(&self, bridge: &HueBridge) -> (r: String)
        ensures
            r@ == "https://"@ + bridge.bridge_ip@ + "/clip/v2/resource/light/"@
                + self.light_id@,
    {
        let mut s: String = String::from_str("https://");
        s.append(bridge.bridge_ip.as_str());
        s.append("/clip/v2/resource/light/");
        s.append(self.light_id.as_str());
        proof {
            assert(s@ =~= "https://"@ + bridge.bridge_ip@ + "/clip/v2/resource/light/"@
                + self.light_id@);
        }
        s
    }
}

} // verus!
