use vstd::prelude::*;

verus! {

/// A city row, owned by a country.
#[derive(Debug, PartialEq, Eq)]
pub struct DbCity {
    pub name: String,
    pub fk_country_id: i32,
}

pub open spec fn capital_name(country: Seq<char>) -> Seq<char> {
    "Capital of "@ + country
}

pub open spec fn port_name(country: Seq<char>) -> Seq<char> {
    "Port "@ + country
}

/// Two cities for each committed country `(name, id)`, in order: its
/// capital, then its port. The catalogue has no city list, and every
/// country needs cities for addresses and profiles to point to.
pub fn synthetic_cities(countries: &Vec<(String, i32)>) -> (r: Vec<DbCity>)
    ensures
        r@.len() == 2 * countries@.len(),
        forall|k: int| 0 <= k < countries@.len() ==> {
            &&& (#[trigger] r@[2 * k]).name@ == capital_name(countries@[k].0@)
            &&& r@[2 * k].fk_country_id == countries@[k].1
            &&& r@[2 * k + 1].name@ == port_name(countries@[k].0@)
            &&& r@[2 * k + 1].fk_country_id == countries@[k].1
        },
{
    let mut cities: Vec<DbCity> = Vec::new();
    for i in 0..countries.len()
        invariant
            cities@.len() == 2 * i,
            forall|k: int| 0 <= k < i ==> {
                &&& (#[trigger] cities@[2 * k]).name@ == capital_name(countries@[k].0@)
                &&& cities@[2 * k].fk_country_id == countries@[k].1
                &&& cities@[2 * k + 1].name@ == port_name(countries@[k].0@)
                &&& cities@[2 * k + 1].fk_country_id == countries@[k].1
            },
    {
        let country = &countries[i];
        let mut capital = String::from_str("Capital of ");
        capital.append(country.0.as_str());
        let mut port = String::from_str("Port ");
        port.append(country.0.as_str());
        cities.push(DbCity { name: capital, fk_country_id: country.1 });
        cities.push(DbCity { name: port, fk_country_id: country.1 });
        assert(cities@[2 * i as int].name@ == capital_name(countries@[i as int].0@));
    }
    cities
}

} // verus!
