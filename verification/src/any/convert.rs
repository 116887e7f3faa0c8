use vstd::prelude::*;

use crate::afi::{Ipv4, Ipv6};
use crate::any;
use crate::concrete;
use crate::error::{Error, Kind};

verus! {

impl TryFrom<any::Range> for concrete::PrefixRange<Ipv4> {
    type Error = Error;

    fn try_from(from: any::Range) -> (r: Result<Self, Error>)
        ensures
            match from {
                any::Range::Ipv4(x) => r matches Ok(y) && y == x,
                any::Range::Ipv6(_) => r matches Err(e) && e.spec_kind() == Kind::AfiMismatch,
            },
    {
        match from {
            any::Range::Ipv4(x) => Ok(x),
            any::Range::Ipv6(_) => Err(Error::of_kind(Kind::AfiMismatch)),
        }
    }
}

impl vstd::std_specs::convert::TryFromSpecImpl<any::Range> for concrete::PrefixRange<Ipv4> {
    /// Not claimed: the operation states its result through the view, which is
    /// all that the value chosen below is known to share with it.
    open spec fn obeys_try_from_spec() -> bool {
        false
    }

    open spec fn try_from_spec(from: any::Range) -> Result<Self, Error> {
        match from {
            any::Range::Ipv4(x) => Ok(x),
            any::Range::Ipv6(_) => Err(choose|e: Error| e.spec_kind() == Kind::AfiMismatch),
        }
    }
}

impl TryFrom<any::Range> for concrete::PrefixRange<Ipv6> {
    type Error = Error;

    fn try_from(from: any::Range) -> (r: Result<Self, Error>)
        ensures
            match from {
                any::Range::Ipv6(x) => r matches Ok(y) && y == x,
                any::Range::Ipv4(_) => r matches Err(e) && e.spec_kind() == Kind::AfiMismatch,
            },
    {
        match from {
            any::Range::Ipv6(x) => Ok(x),
            any::Range::Ipv4(_) => Err(Error::of_kind(Kind::AfiMismatch)),
        }
    }
}

impl vstd::std_specs::convert::TryFromSpecImpl<any::Range> for concrete::PrefixRange<Ipv6> {
    /// Not claimed: the operation states its result through the view, which is
    /// all that the value chosen below is known to share with it.
    open spec fn obeys_try_from_spec() -> bool {
        false
    }

    open spec fn try_from_spec(from: any::Range) -> Result<Self, Error> {
        match from {
            any::Range::Ipv6(x) => Ok(x),
            any::Range::Ipv4(_) => Err(choose|e: Error| e.spec_kind() == Kind::AfiMismatch),
        }
    }
}

impl TryFrom<any::Length> for concrete::PrefixLength<Ipv4> {
    type Error = Error;

    fn try_from(from: any::Length) -> (r: Result<Self, Error>)
        ensures
            match from {
                any::Length::Ipv4(x) => r matches Ok(y) && y == x,
                any::Length::Ipv6(_) => r matches Err(e) && e.spec_kind() == Kind::AfiMismatch,
            },
    {
        match from {
            any::Length::Ipv4(x) => Ok(x),
            any::Length::Ipv6(_) => Err(Error::of_kind(Kind::AfiMismatch)),
        }
    }
}

impl vstd::std_specs::convert::TryFromSpecImpl<any::Length> for concrete::PrefixLength<Ipv4> {
    /// Not claimed: the operation states its result through the view, which is
    /// all that the value chosen below is known to share with it.
    open spec fn obeys_try_from_spec() -> bool {
        false
    }

    open spec fn try_from_spec(from: any::Length) -> Result<Self, Error> {
        match from {
            any::Length::Ipv4(x) => Ok(x),
            any::Length::Ipv6(_) => Err(choose|e: Error| e.spec_kind() == Kind::AfiMismatch),
        }
    }
}

impl TryFrom<any::Length> for concrete::PrefixLength<Ipv6> {
    type Error = Error;

    fn try_from(from: any::Length) -> (r: Result<Self, Error>)
        ensures
            match from {
                any::Length::Ipv6(x) => r matches Ok(y) && y == x,
                any::Length::Ipv4(_) => r matches Err(e) && e.spec_kind() == Kind::AfiMismatch,
            },
    {
        match from {
            any::Length::Ipv6(x) => Ok(x),
            any::Length::Ipv4(_) => Err(Error::of_kind(Kind::AfiMismatch)),
        }
    }
}

impl vstd::std_specs::convert::TryFromSpecImpl<any::Length> for concrete::PrefixLength<Ipv6> {
    /// Not claimed: the operation states its result through the view, which is
    /// all that the value chosen below is known to share with it.
    open spec fn obeys_try_from_spec() -> bool {
        false
    }

    open spec fn try_from_spec(from: any::Length) -> Result<Self, Error> {
        match from {
            any::Length::Ipv6(x) => Ok(x),
            any::Length::Ipv4(_) => Err(choose|e: Error| e.spec_kind() == Kind::AfiMismatch),
        }
    }
}

impl TryFrom<any::Interface> for concrete::Interface<Ipv4> {
    type Error = Error;

    fn try_from(from: any::Interface) -> (r: Result<Self, Error>)
        ensures
            match from {
                any::Interface::Ipv4(x) => r matches Ok(y) && y == x,
                any::Interface::Ipv6(_) => r matches Err(e) && e.spec_kind() == Kind::AfiMismatch,
            },
    {
        match from {
            any::Interface::Ipv4(x) => Ok(x),
            any::Interface::Ipv6(_) => Err(Error::of_kind(Kind::AfiMismatch)),
        }
    }
}

impl vstd::std_specs::convert::TryFromSpecImpl<any::Interface> for concrete::Interface<Ipv4> {
    /// Not claimed: the operation states its result through the view, which is
    /// all that the value chosen below is known to share with it.
    open spec fn obeys_try_from_spec() -> bool {
        false
    }

    open spec fn try_from_spec(from: any::Interface) -> Result<Self, Error> {
        match from {
            any::Interface::Ipv4(x) => Ok(x),
            any::Interface::Ipv6(_) => Err(choose|e: Error| e.spec_kind() == Kind::AfiMismatch),
        }
    }
}

impl TryFrom<any::Interface> for concrete::Interface<Ipv6> {
    type Error = Error;

    fn try_from(from: any::Interface) -> (r: Result<Self, Error>)
        ensures
            match from {
                any::Interface::Ipv6(x) => r matches Ok(y) && y == x,
                any::Interface::Ipv4(_) => r matches Err(e) && e.spec_kind() == Kind::AfiMismatch,
            },
    {
        match from {
            any::Interface::Ipv6(x) => Ok(x),
            any::Interface::Ipv4(_) => Err(Error::of_kind(Kind::AfiMismatch)),
        }
    }
}

impl vstd::std_specs::convert::TryFromSpecImpl<any::Interface> for concrete::Interface<Ipv6> {
    /// Not claimed: the operation states its result through the view, which is
    /// all that the value chosen below is known to share with it.
    open spec fn obeys_try_from_spec() -> bool {
        false
    }

    open spec fn try_from_spec(from: any::Interface) -> Result<Self, Error> {
        match from {
            any::Interface::Ipv6(x) => Ok(x),
            any::Interface::Ipv4(_) => Err(choose|e: Error| e.spec_kind() == Kind::AfiMismatch),
        }
    }
}

impl TryFrom<any::Netmask> for concrete::Netmask<Ipv4> {
    type Error = Error;

    fn try_from(from: any::Netmask) -> (r: Result<Self, Error>)
        ensures
            match from {
                any::Netmask::Ipv4(x) => r matches Ok(y) && y == x,
                any::Netmask::Ipv6(_) => r matches Err(e) && e.spec_kind() == Kind::AfiMismatch,
            },
    {
        match from {
            any::Netmask::Ipv4(x) => Ok(x),
            any::Netmask::Ipv6(_) => Err(Error::of_kind(Kind::AfiMismatch)),
        }
    }
}

impl vstd::std_specs::convert::TryFromSpecImpl<any::Netmask> for concrete::Netmask<Ipv4> {
    /// Not claimed: the operation states its result through the view, which is
    /// all that the value chosen below is known to share with it.
    open spec fn obeys_try_from_spec() -> bool {
        false
    }

    open spec fn try_from_spec(from: any::Netmask) -> Result<Self, Error> {
        match from {
            any::Netmask::Ipv4(x) => Ok(x),
            any::Netmask::Ipv6(_) => Err(choose|e: Error| e.spec_kind() == Kind::AfiMismatch),
        }
    }
}

impl TryFrom<any::Netmask> for concrete::Netmask<Ipv6> {
    type Error = Error;

    fn try_from(from: any::Netmask) -> (r: Result<Self, Error>)
        ensures
            match from {
                any::Netmask::Ipv6(x) => r matches Ok(y) && y == x,
                any::Netmask::Ipv4(_) => r matches Err(e) && e.spec_kind() == Kind::AfiMismatch,
            },
    {
        match from {
            any::Netmask::Ipv6(x) => Ok(x),
            any::Netmask::Ipv4(_) => Err(Error::of_kind(Kind::AfiMismatch)),
        }
    }
}

impl vstd::std_specs::convert::TryFromSpecImpl<any::Netmask> for concrete::Netmask<Ipv6> {
    /// Not claimed: the operation states its result through the view, which is
    /// all that the value chosen below is known to share with it.
    open spec fn obeys_try_from_spec() -> bool {
        false
    }

    open spec fn try_from_spec(from: any::Netmask) -> Result<Self, Error> {
        match from {
            any::Netmask::Ipv6(x) => Ok(x),
            any::Netmask::Ipv4(_) => Err(choose|e: Error| e.spec_kind() == Kind::AfiMismatch),
        }
    }
}

impl TryFrom<any::Hostmask> for concrete::Hostmask<Ipv4> {
    type Error = Error;

    fn try_from(from: any::Hostmask) -> (r: Result<Self, Error>)
        ensures
            match from {
                any::Hostmask::Ipv4(x) => r matches Ok(y) && y == x,
                any::Hostmask::Ipv6(_) => r matches Err(e) && e.spec_kind() == Kind::AfiMismatch,
            },
    {
        match from {
            any::Hostmask::Ipv4(x) => Ok(x),
            any::Hostmask::Ipv6(_) => Err(Error::of_kind(Kind::AfiMismatch)),
        }
    }
}

impl vstd::std_specs::convert::TryFromSpecImpl<any::Hostmask> for concrete::Hostmask<Ipv4> {
    /// Not claimed: the operation states its result through the view, which is
    /// all that the value chosen below is known to share with it.
    open spec fn obeys_try_from_spec() -> bool {
        false
    }

    open spec fn try_from_spec(from: any::Hostmask) -> Result<Self, Error> {
        match from {
            any::Hostmask::Ipv4(x) => Ok(x),
            any::Hostmask::Ipv6(_) => Err(choose|e: Error| e.spec_kind() == Kind::AfiMismatch),
        }
    }
}

impl TryFrom<any::Hostmask> for concrete::Hostmask<Ipv6> {
    type Error = Error;

    fn try_from(from: any::Hostmask) -> (r: Result<Self, Error>)
        ensures
            match from {
                any::Hostmask::Ipv6(x) => r matches Ok(y) && y == x,
                any::Hostmask::Ipv4(_) => r matches Err(e) && e.spec_kind() == Kind::AfiMismatch,
            },
    {
        match from {
            any::Hostmask::Ipv6(x) => Ok(x),
            any::Hostmask::Ipv4(_) => Err(Error::of_kind(Kind::AfiMismatch)),
        }
    }
}

impl vstd::std_specs::convert::TryFromSpecImpl<any::Hostmask> for concrete::Hostmask<Ipv6> {
    /// Not claimed: the operation states its result through the view, which is
    /// all that the value chosen below is known to share with it.
    open spec fn obeys_try_from_spec() -> bool {
        false
    }

    open spec fn try_from_spec(from: any::Hostmask) -> Result<Self, Error> {
        match from {
            any::Hostmask::Ipv6(x) => Ok(x),
            any::Hostmask::Ipv4(_) => Err(choose|e: Error| e.spec_kind() == Kind::AfiMismatch),
        }
    }
}

} // verus!
