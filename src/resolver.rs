//! The geo resolver's fallback chain: turns what the city database holds for
//! an address into a location, city precision first and the registered
//! country's centroid second.
use vstd::prelude::*;

verus! {

/// An angle in decimal degrees, held as the bit pattern of its IEEE 754 double.
#[derive(Debug, Clone, Copy, PartialEq, Eq, Structural)]
pub struct Degrees {
    pub bits: u64,
}

/// Where a location came from, and how precise it is.
#[derive(Debug, Clone)]
pub enum LocationDetails {
    City { city_name: String, accuracy_radius: u16 },
    Manual,
    RegisteredCountry,
}

pub enum LocationDetailsView {
    City { city_name: Seq<char>, accuracy_radius: u16 },
    Manual,
    RegisteredCountry,
}

impl View for LocationDetails {
    type V = LocationDetailsView;

    open spec fn view(&self) -> LocationDetailsView {
        match self {
            LocationDetails::City { city_name, accuracy_radius } => LocationDetailsView::City {
                city_name: city_name@,
                accuracy_radius: *accuracy_radius,
            },
            LocationDetails::Manual => LocationDetailsView::Manual,
            LocationDetails::RegisteredCountry => LocationDetailsView::RegisteredCountry,
        }
    }
}

impl LocationDetails {
    pub fn duplicate(&self) -> (r: LocationDetails)
        ensures
            r@ == self@,
    {
        match self {
            LocationDetails::City { city_name, accuracy_radius } => LocationDetails::City {
                city_name: city_name.clone(),
                accuracy_radius: *accuracy_radius,
            },
            LocationDetails::Manual => LocationDetails::Manual,
            LocationDetails::RegisteredCountry => LocationDetails::RegisteredCountry,
        }
    }
}

/// A resolved location: coordinates, the ISO 3166 country code, and provenance.
#[derive(Debug, Clone)]
pub struct IpInfo {
    pub lat: Degrees,
    pub lon: Degrees,
    pub country_code: String,
    pub details: LocationDetails,
}

pub struct IpInfoView {
    pub lat: Degrees,
    pub lon: Degrees,
    pub country_code: Seq<char>,
    pub details: LocationDetailsView,
}

impl View for IpInfo {
    type V = IpInfoView;

    open spec fn view(&self) -> IpInfoView {
        IpInfoView {
            lat: self.lat,
            lon: self.lon,
            country_code: self.country_code@,
            details: self.details@,
        }
    }
}

impl IpInfo {
    pub fn duplicate(&self) -> (r: IpInfo)
        ensures
            r@ == self@,
    {
        IpInfo {
            lat: self.lat,
            lon: self.lon,
            country_code: self.country_code.clone(),
            details: self.details.duplicate(),
        }
    }
}

pub open spec fn info_view(o: Option<IpInfo>) -> Option<IpInfoView> {
    match o {
        Some(i) => Some(i@),
        None => None,
    }
}

/// What the city database holds for one address. Coordinates are bit
/// patterns of IEEE 754 doubles; `city_names` pairs a locale with a name.
pub struct CityRecord {
    pub latitude: Option<u64>,
    pub longitude: Option<u64>,
    pub accuracy_radius: Option<u16>,
    pub country_code: Option<String>,
    pub city_names: Option<Vec<(String, String)>>,
    pub registered_country_code: Option<String>,
}

/// The name listed for `locale` first, or the empty name.
pub open spec fn name_for(names: Seq<(String, String)>, locale: Seq<char>) -> Seq<char>
    decreases names.len(),
{
    if names.len() == 0 {
        Seq::empty()
    } else if names[0].0@ == locale {
        names[0].1@
    } else {
        name_for(names.drop_first(), locale)
    }
}

/// The English name of the city, or the empty name.
pub open spec fn city_name_of(rec: CityRecord) -> Seq<char> {
    match rec.city_names {
        Some(names) => name_for(names@, "en"@),
        None => Seq::empty(),
    }
}

pub open spec fn has_city_location(rec: CityRecord) -> bool {
    rec.latitude is Some && rec.longitude is Some && rec.accuracy_radius is Some
}

/// The fallback chain: city precision when the record has coordinates and an
/// accuracy radius; else the centroid of the registered country, where
/// `country_geo` is what the country table gives for its code; else nothing.
pub open spec fn spec_locate(rec: CityRecord, country_geo: Option<(Option<u64>, Option<u64>)>) -> Option<
    IpInfoView,
> {
    if has_city_location(rec) {
        Some(
            IpInfoView {
                lat: Degrees { bits: rec.latitude.unwrap() },
                lon: Degrees { bits: rec.longitude.unwrap() },
                country_code: match rec.country_code {
                    Some(c) => c@,
                    None => Seq::empty(),
                },
                details: LocationDetailsView::City {
                    city_name: city_name_of(rec),
                    accuracy_radius: rec.accuracy_radius.unwrap(),
                },
            },
        )
    } else {
        match (rec.registered_country_code, country_geo) {
            (Some(code), Some((Some(lat), Some(lon)))) => Some(
                IpInfoView {
                    lat: Degrees { bits: lat },
                    lon: Degrees { bits: lon },
                    country_code: code@,
                    details: LocationDetailsView::RegisteredCountry,
                },
            ),
            _ => None,
        }
    }
}

/// What the country table gives for an ISO 3166 alpha-2 code: `None` for a
/// code it does not know, else the centroid's latitude and longitude, each
/// present or not, as bit patterns of IEEE 754 doubles.
pub uninterp spec fn country_geo_of(code: Seq<char>) -> Option<(Option<u64>, Option<u64>)>;

/// The country-table answer for the record's registered country.
pub open spec fn registered_geo(rec: CityRecord) -> Option<(Option<u64>, Option<u64>)> {
    match rec.registered_country_code {
        Some(code) => country_geo_of(code@),
        None => None,
    }
}

/// The location that the fallback chain gives for a database record.
pub open spec fn spec_resolution(rec: CityRecord) -> Option<IpInfoView> {
    spec_locate(rec, registered_geo(rec))
}

/// Relies on my_country's `Country::from_str`, which parses an ISO 3166
/// alpha-2 code, and `Country::geo`, the country's coordinates; both depend on
/// the code alone.
#[verifier::external_body]
fn country_geo(code: &str) -> (r: Option<(Option<u64>, Option<u64>)>)
    ensures
        r == country_geo_of(code@),
{
    let geo = <my_country::Country as std::str::FromStr>::from_str(code).ok()?.geo();
    Some((geo.latitude.map(|v| v.to_bits()), geo.longitude.map(|v| v.to_bits())))
}

/// The name listed for `locale` first, or the empty name.
pub fn name_for_locale(names: &Vec<(String, String)>, locale: &String) -> (r: String)
    ensures
        r@ == name_for(names@, locale@),
{
    let mut i: usize = 0;
    assert(names@.subrange(0, names@.len() as int) =~= names@);
    while i < names.len()
        invariant
            i <= names@.len(),
            name_for(names@, locale@) == name_for(names@.subrange(i as int, names@.len() as int), locale@),
        decreases names.len() - i,
    {
        assert(names@.subrange(i as int, names@.len() as int).drop_first() =~= names@.subrange(
            i + 1,
            names@.len() as int,
        ));
        if names[i].0 == *locale {
            return names[i].1.clone();
        }
        i = i + 1;
    }
    String::new()
}

/// Applies the fallback chain to a database record, given the country-table
/// answer for its registered country.
pub fn locate(rec: &CityRecord, country_geo: Option<(Option<u64>, Option<u64>)>) -> (r: Option<IpInfo>)
    ensures
        info_view(r) == spec_locate(*rec, country_geo),
{
    match (rec.latitude, rec.longitude, rec.accuracy_radius) {
        (Some(lat), Some(lon), Some(accuracy_radius)) => {
            let country_code = match &rec.country_code {
                Some(c) => c.clone(),
                None => String::new(),
            };
            let city_name = match &rec.city_names {
                Some(names) => name_for_locale(names, &"en".to_owned()),
                None => String::new(),
            };
            return Some(
                IpInfo {
                    lat: Degrees { bits: lat },
                    lon: Degrees { bits: lon },
                    country_code,
                    details: LocationDetails::City { city_name, accuracy_radius },
                },
            );
        },
        _ => {},
    }
    match (&rec.registered_country_code, country_geo) {
        (Some(code), Some((Some(lat), Some(lon)))) => Some(
            IpInfo {
                lat: Degrees { bits: lat },
                lon: Degrees { bits: lon },
                country_code: code.clone(),
                details: LocationDetails::RegisteredCountry,
            },
        ),
        _ => None,
    }
}

/// Applies the fallback chain to a database record, asking the country table
/// for the registered country's centroid.
pub fn resolve_record(rec: &CityRecord) -> (r: Option<IpInfo>)
    ensures
        info_view(r) == spec_resolution(*rec),
{
    let geo = match &rec.registered_country_code {
        Some(code) => country_geo(code.as_str()),
        None => None,
    };
    locate(rec, geo)
}

/// A record without a city-precision location falls back to its registered
/// country: where the country table places that country, the location has
/// country precision; where it does not, or there is no registered country,
/// there is no location at all.
pub proof fn lemma_country_fallback(rec: CityRecord)
    requires
        !has_city_location(rec),
    ensures
        rec.registered_country_code is Some && (registered_geo(rec) matches Some((Some(_), Some(_))))
            ==> (spec_resolution(rec) matches Some(i) && i.details is RegisteredCountry),
        !(rec.registered_country_code is Some && (registered_geo(rec) matches Some((Some(_), Some(_)))))
            ==> spec_resolution(rec) is None,
{
}

} // verus!
