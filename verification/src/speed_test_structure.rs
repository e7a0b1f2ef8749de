//! What the speed-test service tells about the client's location and about
//! its servers.

use vstd::prelude::*;

verus! {

/// Where the client is, as the location service describes it.
#[derive(Debug)]
pub struct LocationInfo {
    pub ip: String,
    pub full_ip: String,
    pub country: String,
    pub country_code: String,
    pub province: String,
    pub city: String,
    pub distinct: String,
    pub isp: String,
    pub operator: String,
    pub lon: String,
    pub lat: String,
    pub net_str: String,
}

/// A speed-test server, as the server list describes it.
#[derive(Debug)]
pub struct SpeedTestServerInfo {
    pub id: String,
    pub active: String,
    pub https: String,
    pub cros: String,
    pub preferred: String,
    pub host: String,
    pub ver: String,
    pub lon: String,
    pub lat: String,
    pub distance: i32,
    pub pingUrl: String,
    pub downloadUrl: String,
    pub uploadUrl: String,
    pub websocketUrl: String,
}

/// The location as the fallback location service describes it.
pub struct ApiV3LocationInfo {
    pub ip: String,
    pub country: String,
    pub province: String,
    pub city: String,
    pub district: String,
    pub isp: String,
    pub operator: String,
    pub country_code: String,
    pub lon: String,
    pub lat: String,
}

/// The answer of the fallback location service.
pub struct ApiV3Response {
    pub code: i32,
    pub data: ApiV3LocationInfo,
    pub msg: String,
}

impl LocationInfo {
    /// The location that a fallback-service answer describes: its address
    /// stands as both the address and the full address, its district as the
    /// district, and the network description is empty.
    pub fn from(api_info: ApiV3LocationInfo) -> (r: LocationInfo)
        ensures
            r.ip == api_info.ip,
            r.full_ip == api_info.ip,
            r.country == api_info.country,
            r.country_code == api_info.country_code,
            r.province == api_info.province,
            r.city == api_info.city,
            r.distinct == api_info.district,
            r.isp == api_info.isp,
            r.operator == api_info.operator,
            r.lon == api_info.lon,
            r.lat == api_info.lat,
            r.net_str@ == Seq::<char>::empty(),
    {
        LocationInfo {
            ip: api_info.ip.clone(),
            full_ip: api_info.ip,
            country: api_info.country,
            country_code: api_info.country_code,
            province: api_info.province,
            city: api_info.city,
            distinct: api_info.district,
            isp: api_info.isp,
            operator: api_info.operator,
            lon: api_info.lon,
            lat: api_info.lat,
            net_str: String::new(),
        }
    }
}

/// The address of the list of servers near a latitude and longitude.
pub open spec fn server_list_url_spec(lat: Seq<char>, lon: Seq<char>) -> Seq<char> {
    "https://nodes.speedtest.cn/?https=1&browser=1&page=1&lat="@ + lat + "&lon="@ + lon + "&q="@
}

/// Builds the address of the list of servers near the given location.
pub fn server_list_url(lat: &str, lon: &str) -> (r: String)
    ensures
        r@ == server_list_url_spec(lat@, lon@),
{
    let mut r = String::new();
    r.append("https://nodes.speedtest.cn/?https=1&browser=1&page=1&lat=");
    r.append(lat);
    r.append("&lon=");
    r.append(lon);
    r.append("&q=");
    r
}

} // verus!
