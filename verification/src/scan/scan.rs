//! Scan results as a list of hotspots.
//!
//! A scanner that reports the hotspots one by one, with their fields
//! parted already, needs no parsing: its list is written as the same array
//! of JSON objects, the fields as they are.

use vstd::prelude::*;
use vstd::string::StringExecFns;
use vstd::string::StrSliceExecFns;
use vstd::utf8::encode_utf8;

verus! {

/// A hotspot as the scanner reports it.
pub struct Wifi {
    /// Hardware address.
    pub mac: String,
    /// Name of the hotspot.
    pub ssid: String,
    /// Channel.
    pub channel: String,
    /// Signal strength in dBm.
    pub signal_level: String,
    /// Security; not written out.
    pub security: String,
}

/// Why the scanner found nothing.
#[derive(Clone, Copy, Debug, PartialEq, Eq, Structural)]
pub enum ScanError {
    /// The pattern for the tool's output is faulty.
    SyntaxRegexError,
    /// The scan tool is not installed.
    CommandNotFound,
    /// The tool's output holds no hotspot.
    NoMatch,
    /// The tool's output could not be read.
    FailedToParse,
    /// A field of a hotspot is missing.
    NoValue,
}

impl ScanError {
    /// The name of the error.
    pub open spec fn name(self) -> Seq<char> {
        match self {
            ScanError::SyntaxRegexError => "SyntaxRegexError"@,
            ScanError::CommandNotFound => "CommandNotFound"@,
            ScanError::NoMatch => "NoMatch"@,
            ScanError::FailedToParse => "FailedToParse"@,
            ScanError::NoValue => "NoValue"@,
        }
    }

    /// The name of the error.
    pub fn description(&self) -> (text: &'static str)
        ensures
            text@ == self.name(),
    {
        match self {
            ScanError::SyntaxRegexError => "SyntaxRegexError",
            ScanError::CommandNotFound => "CommandNotFound",
            ScanError::NoMatch => "NoMatch",
            ScanError::FailedToParse => "FailedToParse",
            ScanError::NoValue => "NoValue",
        }
    }
}

/// The JSON object for the hotspot `item`.
pub open spec fn hotspot_json(item: Wifi) -> Seq<char> {
    "{\"ssid\":\""@ + item.ssid@ + "\",\"rssi\":\""@ + item.signal_level@ + "\",\"mac\":\""@
        + item.mac@ + "\",\"ch\":\""@ + item.channel@ + "\"}"@
}

/// The JSON objects for the hotspots `items`, with commas between them.
pub open spec fn hotspots_json(items: Seq<Wifi>) -> Seq<char>
    decreases items.len(),
{
    if items.len() == 0 {
        Seq::empty()
    } else if items.len() == 1 {
        hotspot_json(items[0])
    } else {
        hotspots_json(items.drop_last()) + seq![','] + hotspot_json(items.last())
    }
}

/// The JSON array for the hotspots `items`.
pub open spec fn hotspot_array(items: Seq<Wifi>) -> Seq<char> {
    seq!['['] + hotspots_json(items) + seq![']']
}

/// Writes the hotspots that a scan found as a JSON array, in UTF-8; the
/// failure of a scan is handed on.
pub fn scan(found_hotspots: Result<Vec<Wifi>, ScanError>) -> (res: Result<Vec<u8>, ScanError>)
    ensures
        match found_hotspots {
            Ok(items) => res matches Ok(json) && json@ == encode_utf8(hotspot_array(items@)),
            Err(e) => res == Err::<Vec<u8>, ScanError>(e),
        },
{
    match found_hotspots {
        Err(e) => Err(e),
        Ok(items) => {
            let mut json = String::new();
            json.append("[");
            proof {
                reveal_strlit("[");
                reveal_strlit(",");
                reveal_strlit("]");
                assert(json@ =~= seq!['['] + hotspots_json(items@.take(0)));
            }
            let mut i: usize = 0;
            while i < items.len()
                invariant
                    i <= items@.len(),
                    json@ == seq!['['] + hotspots_json(items@.take(i as int)),
                    ","@ == seq![','],
                    "]"@ == seq![']'],
                decreases items@.len() - i,
            {
                let ghost upto = items@.take(i + 1);
                assert(upto.drop_last() =~= items@.take(i as int));
                if i > 0 {
                    json.append(",");
                }
                let item = &items[i];
                json.append("{\"ssid\":\"");
                json.append(item.ssid.as_str());
                json.append("\",\"rssi\":\"");
                json.append(item.signal_level.as_str());
                json.append("\",\"mac\":\"");
                json.append(item.mac.as_str());
                json.append("\",\"ch\":\"");
                json.append(item.channel.as_str());
                json.append("\"}");
                assert(json@ =~= seq!['['] + hotspots_json(upto));
                i = i + 1;
            }
            json.append("]");
            assert(items@.take(items@.len() as int) =~= items@);
            assert(json@ =~= hotspot_array(items@));
            Ok(json.as_str().as_bytes_vec())
        },
    }
}

} // verus!
