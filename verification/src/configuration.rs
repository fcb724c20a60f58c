//! Where the service finds its database and on which port it listens.

use vstd::prelude::*;
use vstd::string::StringExecFns;

verus! {

/// The address of a PostgreSQL database as a URL: scheme, user and password,
/// host and port, and the name of the database.
pub open spec fn postgres_url(
    user: Seq<char>,
    password: Seq<char>,
    host: Seq<char>,
    port: Seq<char>,
    name: Seq<char>,
) -> Seq<char> {
    "postgresql://"@ + user + ":"@ + password + "@"@ + host + ":"@ + port + "/"@ + name
}

/// The settings of the service.
#[derive(Debug)]
pub struct Configuration {
    database_host: String,
    database_port: String,
    database_name: String,
    database_user: String,
    database_password: String,
    pub application_port: String,
}

impl Configuration {
    /// The URL of the database that these settings describe.
    pub closed spec fn spec_postgres_url(&self) -> Seq<char> {
        postgres_url(
            self.database_user@,
            self.database_password@,
            self.database_host@,
            self.database_port@,
            self.database_name@,
        )
    }

    /// The port on which the service listens.
    pub closed spec fn spec_application_port(&self) -> Seq<char> {
        self.application_port@
    }

    pub fn new(
        database_host: String,
        database_port: String,
        database_name: String,
        database_user: String,
        database_password: String,
        application_port: String,
    ) -> (configuration: Self)
        ensures
            configuration.spec_application_port() == application_port@,
            configuration.spec_postgres_url() == postgres_url(
                database_user@,
                database_password@,
                database_host@,
                database_port@,
                database_name@,
            ),
    {
        Configuration {
            database_host,
            database_port,
            database_name,
            database_user,
            database_password,
            application_port,
        }
    }

    /// The URL under which the database is reached.
    pub fn get_postgres_url(&self) -> (url: String)
        ensures
            url@ == self.spec_postgres_url(),
    {
        let mut url = String::from_str("postgresql://");
        url.append(self.database_user.as_str());
        url.append(":");
        url.append(self.database_password.as_str());
        url.append("@");
        url.append(self.database_host.as_str());
        url.append(":");
        url.append(self.database_port.as_str());
        url.append("/");
        url.append(self.database_name.as_str());
        url
    }
}

} // verus!
