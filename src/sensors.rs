use vstd::prelude::*;

use vstd::utf8::{decode_utf8, encode_utf8};

use crate::common::Sensor;

verus! {

/// Two strings hold the same characters.
fn same_text(a: &str, b: &str) -> (r: bool)
    ensures
        r == (a@ == b@),
{
    let x = a.as_bytes();
    let y = b.as_bytes();
    proof {
        vstd::utf8::encode_utf8_valid_utf8(a@);
        vstd::utf8::encode_utf8_valid_utf8(b@);
        vstd::utf8::encode_utf8_decode_utf8(a@);
        vstd::utf8::encode_utf8_decode_utf8(b@);
        assert(x@ == encode_utf8(a@));
        assert(y@ == encode_utf8(b@));
    }
    if x.len() != y.len() {
        assert(x@ != y@);
        return false;
    }
    let mut i: usize = 0;
    while i < x.len()
        invariant
            x@ == encode_utf8(a@),
            y@ == encode_utf8(b@),
            x@.len() == y@.len(),
            i <= x@.len(),
            forall|k: int| 0 <= k < i ==> x@[k] == y@[k],
        decreases x.len() - i,
    {
        if x[i] != y[i] {
            assert(x@ != y@);
            return false;
        }
        i = i + 1;
    }
    assert(x@ == y@);
    assert(a@ == decode_utf8(x@));
    true
}

/// The sensors that were found, or an error when the search found none.
pub fn read_connected_sensors(found: Option<Vec<Sensor>>) -> (r: Result<Vec<Sensor>, String>)
    ensures
        match found {
            Some(sensors) => r == Ok::<Vec<Sensor>, String>(sensors),
            None => r matches Err(message) && message@ == "No sensors found"@,
        },
{
    match found {
        Some(sensors) => Ok(sensors),
        None => Err("No sensors found".to_owned()),
    }
}

/// The serials that were found, or an error when the search found none.
pub fn read_connected_serials(found: Option<Vec<String>>) -> (r: Result<Vec<String>, String>)
    ensures
        match found {
            Some(serials) => r == Ok::<Vec<String>, String>(serials),
            None => r matches Err(message) && message@ == "No sensors found"@,
        },
{
    match found {
        Some(serials) => Ok(serials),
        None => Err("No sensors found".to_owned()),
    }
}

/// The first of the sensors found whose serial is `serial`, or an error when
/// there is none.
pub fn read_sensor(serial: &str, found: Option<Vec<Sensor>>) -> (r: Result<Sensor, String>)
    ensures
        match r {
            Ok(sensor) => found matches Some(sensors) && (exists|i: int|
                0 <= i < sensors.len() && sensors[i] == sensor && sensor.serial@ == serial@
                    && forall|k: int| 0 <= k < i ==> #[trigger] sensors[k].serial@ != serial@),
            Err(message) => message@ == "Sensor not found"@ && (found matches Some(sensors) ==> forall|
                k: int,
            |
                0 <= k < sensors.len() ==> #[trigger] sensors[k].serial@ != serial@),
        },
{
    if let Some(mut sensors) = found {
        let mut i: usize = 0;
        while i < sensors.len()
            invariant
                found == Some(sensors),
                i <= sensors.len(),
                forall|k: int| 0 <= k < i ==> #[trigger] sensors@[k].serial@ != serial@,
            decreases sensors.len() - i,
        {
            if same_text(sensors[i].serial.as_str(), serial) {
                return Ok(sensors.remove(i));
            }
            i = i + 1;
        }
    }
    Err("Sensor not found".to_owned())
}

} // verus!
