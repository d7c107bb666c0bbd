<!doctype html>
<html lang="en" data-bs-theme="light">
<head>
<meta charset="utf-8"><meta name="viewport" content="width=device-width, initial-scale=1">
<title>CalStack — Contacts</title>
<link rel="stylesheet" href="/assets/css/bootstrap.min.css">
<link rel="stylesheet" href="/assets/css/bootstrap-icons.css">
<link rel="stylesheet" href="/assets/css/app.css">
<link rel="icon" type="image/png" sizes="16x16" href="/assets/img/favicon-16x16.png">
<link rel="icon" type="image/png" sizes="32x32" href="/assets/img/favicon-32x32.png">
<link rel="apple-touch-icon" href="/assets/img/apple-touch-icon.png">
<script src="/assets/js/theme.js"></script>
</head>
<body class="bg-body-tertiary">
<!-- header -->
<!-- menu -->
<div class="container-fluid p-3">
  <div class="row">
    <div class="col-md-3 mb-3">
      <div class="d-flex align-items-center justify-content-between mb-2">
        <h1 class="h5 mb-0">Address books</h1>
        <button id="ab-new" class="btn btn-sm btn-outline-primary" type="button" title="New address book"><i class="bi bi-plus-lg"></i></button>
      </div>
      <div class="list-group" id="ab-list"></div>
      <p class="text-body-secondary small mt-2">Personal books sync via CardDAV at <code>/contacts/</code>. The directory book lists every user in your tenant and is read-only.</p>
    </div>
    <div class="col-md-9">
      <div class="d-flex align-items-center gap-2 mb-2">
        <h1 class="h5 mb-0" id="ab-current-name">Contacts</h1>
        <input class="form-control form-control-sm w-auto ms-auto" id="ct-search" placeholder="Search">
      </div>
      <form id="ct-form" class="card p-3 mb-3">
        <div class="row g-2 align-items-end">
          <div class="col"><label class="form-label" for="ct-name">Name</label>
            <input class="form-control" id="ct-name" required></div>
          <div class="col"><label class="form-label" for="ct-org">Organization</label>
            <input class="form-control" id="ct-org"></div>
          <div class="col"><label class="form-label" for="ct-email">Email</label>
            <input class="form-control" id="ct-email" type="email"></div>
          <div class="col"><label class="form-label" for="ct-tel">Phone</label>
            <input class="form-control" id="ct-tel" type="tel"></div>
          <div class="col-auto form-check mb-2">
            <input class="form-check-input" type="checkbox" id="ct-mobile" checked>
            <label class="form-check-label" for="ct-mobile">Mobile</label></div>
          <div class="col-auto d-flex align-items-end">
            <button class="btn btn-primary" type="submit">Add contact</button></div>
        </div>
      </form>
      <table class="table table-sm bg-body">
        <thead><tr><th>Name</th><th>Org</th><th>Email</th><th>Phone</th><th></th></tr></thead>
        <tbody id="ct-rows"></tbody>
      </table>
    </div>
  </div>
</div>
<script src="/assets/js/jquery.min.js"></script>
<script src="/assets/js/jquery-migrate.min.js"></script>
<script src="/assets/js/api.js"></script>
<script src="/assets/js/bootstrap.bundle.min.js"></script>
<script src="/assets/js/dialogs.js"></script>
<script src="/assets/js/contacts.js"></script>
<!-- footer -->
</body></html>
